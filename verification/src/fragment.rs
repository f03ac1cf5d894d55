//! Deferred children of components: a view rendered on demand, and the options of a select.
use vstd::prelude::*;

verus! {

/// A view that is rendered once, when asked: a function that gives the markup of its
/// nodes, or none (an empty view).
pub struct ViewFragment<F: FnOnce() -> Vec<String>> {
    pub render: Option<F>,
}

impl<F: FnOnce() -> Vec<String>> ViewFragment<F> {
    /// Wraps a rendering function.
    pub fn new(render: F) -> (r: Self)
        ensures
            r.render == Some(render),
    {
        ViewFragment { render: Some(render) }
    }

    /// The empty view: it renders no node.
    pub fn default() -> (r: Self)
        ensures
            r.render is None,
    {
        ViewFragment { render: None }
    }

    /// Renders the view: runs the wrapped function once and gives its nodes; the empty
    /// view gives none.
    pub fn run(self) -> (r: Vec<String>)
        requires
            self.render matches Some(f) ==> call_requires(f, ()),
        ensures
            match self.render {
                Some(f) => call_ensures(f, (), r),
                None => r@.len() == 0,
            },
    {
        match self.render {
            Some(f) => f(),
            None => Vec::new(),
        }
    }
}

/// The options of a select: (value, label) pairs.
pub struct SelectFragment {
    pub nodes: Vec<(String, String)>,
}

impl SelectFragment {
    /// The options, in the given order.
    pub fn new(nodes: Vec<(String, String)>) -> (r: Self)
        ensures
            r.nodes == nodes,
    {
        SelectFragment { nodes }
    }
}

/// Values that can serve as the options of a select.
pub trait IntoSelectFragment: Sized {
    /// The options the value stands for.
    fn into_select_fragment(self) -> SelectFragment;
}

impl IntoSelectFragment for Vec<(String, String)> {
    /// A list of (value, label) pairs gives those options, in order.
    fn into_select_fragment(self) -> (r: SelectFragment)
        ensures
            r.nodes == self,
    {
        SelectFragment::new(self)
    }
}

/// The children of a select: a function that gives its options when rendered.
pub struct ChildrenSelectFragment<F: FnOnce() -> SelectFragment>(pub F);

impl<F: FnOnce() -> SelectFragment> ChildrenSelectFragment<F> {
    /// The children of a select, given by the function that gives its options.
    pub fn to_children(f: F) -> (r: Self)
        ensures
            r.0 == f,
    {
        ChildrenSelectFragment(f)
    }

    /// The function that gives the options.
    pub fn into_inner(self) -> (r: F)
        ensures
            r == self.0,
    {
        self.0
    }
}

} // verus!
