//! The administration requests: who may make them, what input they accept, and the
//! statements they run.
use crate::auth::{authorize, check_combo, grants, bits_of, User};
use crate::query::{parts_view, push_bind, push_sql, ArgView, PartView, QueryPart, SqlArg};
use crate::text::opt_text;
use crate::types::{ApiError, Permissions};
use vstd::prelude::*;

verus! {

/// The statement that recomputes the points and rating of the rankings of a combination.
pub const RECALCULATE_RANKS: &'static str = "WITH ran AS (SELECT (percentage ^ (1 / (1.3 + percentage))) AS p, user_id AS u 
				FROM rank
				WHERE patch = '2.13' AND layout IS NOT DISTINCT FROM $1 
					AND category IS NOT DISTINCT FROM $2),
		po AS (SELECT AVG(points) as p, user_id as u 
			FROM run r 
			JOIN section s ON section_id = s.id
			WHERE s.patch = '2.13' AND layout = $1
				AND category = $2 AND submittable = true
			GROUP BY user_id)
		UPDATE rank r
		SET points = (SELECT p FROM po WHERE u = r.user_id),
		rating = (-10000 * (SELECT p FROM ran WHERE u = r.user_id) * (
			(EXP((-(SELECT p FROM po WHERE u = r.user_id) + 1) ^ 
				(1 / (12 - 10.7 * (-EXP((-(SELECT p FROM po WHERE u = r.user_id) + 1) ^ 
		            (1 / (1.9 * (3 - 2 * (SELECT p FROM po WHERE u = r.user_id)) 
                        * (2 - (SELECT p FROM ran WHERE u = r.user_id))))) 
				+ EXP(1.0)) / (EXP(1.0) - 1)))) 
			- EXP(1.0)) / (EXP(1.0) - 1))),
		updated_at = NEW.created_at
		WHERE patch = '2.13' AND layout IS NOT DINSTINCT FROM $1 AND category IS NOT DISTINCT FROM $2;";

/// The statement that recomputes the points of the runs of a section.
pub const RECALCULATE_RUNS: &'static str = "UPDATE run
        SET points = GREATEST(3.0 - 2.0 * time::double precision 
            / (SELECT time 
               FROM run r
               WHERE run.section_id = r.section_id AND r.is_wr = true;)::double precision
            , 0.0)
        FROM section s
        WHERE section_id = s.id AND patch = '2.13' AND layout = $1 AND category = $2 AND map = $3;";

/// The statement that adds a section to the current patch.
pub const ADD_SECTION: &'static str = "INSERT INTO section (patch, layout, category, map, code, submittable)
        VALUES ('2.13', $1, $2, $3, $4, $5);";

/// The answer to a request of `user` that needs `perm`: unauthenticated without a user,
/// unauthorized where the user may not.
pub open spec fn permission_error(user: Option<&User>, perm: Permissions) -> Option<ApiError> {
    match user {
        None => Some(ApiError::Unauthenticated),
        Some(u) => if grants(bits_of(u.permissions), perm) {
            None
        } else {
            Some(ApiError::Unauthorized)
        },
    }
}

/// A statement and the values bound to its parameters, in order.
pub open spec fn statement(sql: Seq<char>, args: Seq<ArgView>) -> Seq<PartView> {
    seq![PartView::Sql(sql)] + args.map_values(|a: ArgView| PartView::Bind(a))
}

/// Recomputing the rankings of a combination: for those who may manage runs; a layout
/// goes with a category, or neither is given (the combined ranking).
pub fn recalculate_ranks_request(user: Option<&User>, layout: Option<String>, category: Option<String>) -> (r:
    Result<Vec<QueryPart>, ApiError>)
    ensures
        match permission_error(user, Permissions::ManageRuns) {
            Some(e) => r == Err::<Vec<QueryPart>, ApiError>(e),
            None => if (layout is Some) != (category is Some) {
                r == Err::<Vec<QueryPart>, ApiError>(ApiError::InvalidInput)
            } else {
                r matches Ok(q) && parts_view(q@) == statement(
                    RECALCULATE_RANKS@,
                    seq![ArgView::OptText(opt_text(layout)), ArgView::OptText(opt_text(category))],
                )
            },
        },
{
    match authorize(user, &Permissions::ManageRuns) {
        Err(e) => return Err(e),
        Ok(()) => {},
    }
    match check_combo(&layout, &category) {
        Err(e) => return Err(e),
        Ok(()) => {},
    }
    let mut q: Vec<QueryPart> = Vec::new();
    push_sql(&mut q, RECALCULATE_RANKS);
    push_bind(&mut q, SqlArg::OptText(layout));
    push_bind(&mut q, SqlArg::OptText(category));
    proof {
        assert(parts_view(q@) =~= statement(
            RECALCULATE_RANKS@,
            seq![ArgView::OptText(opt_text(layout)), ArgView::OptText(opt_text(category))],
        ));
    }
    Ok(q)
}

/// Recomputing the points of the runs of a section: for those who may manage runs.
pub fn recalculate_runs_request(user: Option<&User>, layout: String, category: String, map: String) -> (r: Result<
    Vec<QueryPart>,
    ApiError,
>)
    ensures
        match permission_error(user, Permissions::ManageRuns) {
            Some(e) => r == Err::<Vec<QueryPart>, ApiError>(e),
            None => r matches Ok(q) && parts_view(q@) == statement(
                RECALCULATE_RUNS@,
                seq![ArgView::Text(layout@), ArgView::Text(category@), ArgView::Text(map@)],
            ),
        },
{
    match authorize(user, &Permissions::ManageRuns) {
        Err(e) => return Err(e),
        Ok(()) => {},
    }
    let ghost (l, c, m) = (layout@, category@, map@);
    let mut q: Vec<QueryPart> = Vec::new();
    push_sql(&mut q, RECALCULATE_RUNS);
    push_bind(&mut q, SqlArg::Text(layout));
    push_bind(&mut q, SqlArg::Text(category));
    push_bind(&mut q, SqlArg::Text(map));
    proof {
        assert(parts_view(q@) =~= statement(
            RECALCULATE_RUNS@,
            seq![ArgView::Text(l), ArgView::Text(c), ArgView::Text(m)],
        ));
    }
    Ok(q)
}

/// Adding a section to the current patch: for administrators.
pub fn add_section_request(
    user: Option<&User>,
    layout: String,
    category: String,
    map: String,
    code: String,
    submittable: bool,
) -> (r: Result<Vec<QueryPart>, ApiError>)
    ensures
        match permission_error(user, Permissions::Administrator) {
            Some(e) => r == Err::<Vec<QueryPart>, ApiError>(e),
            None => r matches Ok(q) && parts_view(q@) == statement(
                ADD_SECTION@,
                seq![
                    ArgView::Text(layout@),
                    ArgView::Text(category@),
                    ArgView::Text(map@),
                    ArgView::Text(code@),
                    ArgView::Bool(submittable),
                ],
            ),
        },
{
    match authorize(user, &Permissions::Administrator) {
        Err(e) => return Err(e),
        Ok(()) => {},
    }
    let ghost (l, c, m, k) = (layout@, category@, map@, code@);
    let mut q: Vec<QueryPart> = Vec::new();
    push_sql(&mut q, ADD_SECTION);
    push_bind(&mut q, SqlArg::Text(layout));
    push_bind(&mut q, SqlArg::Text(category));
    push_bind(&mut q, SqlArg::Text(map));
    push_bind(&mut q, SqlArg::Text(code));
    push_bind(&mut q, SqlArg::Bool(submittable));
    proof {
        assert(parts_view(q@) =~= statement(
            ADD_SECTION@,
            seq![
                ArgView::Text(l),
                ArgView::Text(c),
                ArgView::Text(m),
                ArgView::Text(k),
                ArgView::Bool(submittable),
            ],
        ));
    }
    Ok(q)
}

/// Updating a section: for administrators, and only where there is something to change.
pub fn update_section_request(user: Option<&User>, id: i32, submittable: Option<bool>, name: Option<String>) -> (r:
    Result<Vec<QueryPart>, ApiError>)
    ensures
        match permission_error(user, Permissions::Administrator) {
            Some(e) => r == Err::<Vec<QueryPart>, ApiError>(e),
            None => if submittable is None && name is None {
                r == Err::<Vec<QueryPart>, ApiError>(ApiError::InvalidInput)
            } else {
                r matches Ok(q) && parts_view(q@) == crate::query::spec_section_update(id, submittable, name)
            },
        },
{
    match authorize(user, &Permissions::Administrator) {
        Err(e) => return Err(e),
        Ok(()) => {},
    }
    crate::query::section_update_query(id, submittable, name)
}

/// What a failed statement is answered with.
pub fn database_failure(action: &str) -> (r: ApiError)
    ensures
        r matches ApiError::ServerError(m) && m@ == "Database "@ + action@ + " failed"@,
{
    ApiError::ServerError(String::from_str("Database ").concat(action).concat(" failed"))
}

} // verus!
