//! The sign-in, sign-up and submission forms: what they say of a failure, and how a
//! workshop code fills in the submission form.
use crate::types::{ApiError, MapCode};
use vstd::prelude::*;
use vstd::string::StringSliceAdditionalSpecFns;
use vstd::utf8::{encode_utf8, is_char_boundary};
use vstd::string::StrSliceExecFns;

verus! {

/// The forms that report failures.
#[derive(Clone, Copy, Debug, PartialEq, Eq)]
pub enum FormPage {
    Login,
    Register,
    Submit,
    Delete,
    Username,
    Password,
}

/// What a form says of a failure (`None`: a failure that is not an API error).
pub open spec fn spec_form_error(page: FormPage, error: Option<ApiError>) -> Seq<char> {
    match (page, error) {
        (FormPage::Login, Some(ApiError::InvalidCredentials)) => "🛈 Incorrect username or password"@,
        (FormPage::Register, Some(ApiError::AlreadyExists)) => "🛈 Username already exists"@,
        (FormPage::Submit, Some(ApiError::InvalidSection)) => "🛈 Invalid map name"@,
        (FormPage::Submit, Some(ApiError::InvalidYtId)) => "🛈 YT video id does not exist"@,
        (FormPage::Delete, Some(ApiError::Unauthenticated)) => "🛈 Please log in"@,
        (FormPage::Delete, Some(ApiError::Unauthorized)) => "🛈 Missing permission"@,
        (FormPage::Delete, Some(ApiError::NotFound)) => "🛈 Invalid run"@,
        (FormPage::Username, Some(ApiError::AlreadyExists)) => "🛈 Username already exists"@,
        (FormPage::Password, Some(ApiError::InvalidCredentials)) => "🛈 Incorrect password"@,
        _ => "🛈 Something went wrong. Try again"@,
    }
}

/// What a form says of a failure.
pub fn form_error(page: FormPage, error: Option<&ApiError>) -> (r: String)
    ensures
        r@ == spec_form_error(
            page,
            match error {
                Some(e) => Some(*e),
                None => None,
            },
        ),
{
    match (page, error) {
        (FormPage::Login, Some(ApiError::InvalidCredentials)) => String::from_str("🛈 Incorrect username or password"),
        (FormPage::Register, Some(ApiError::AlreadyExists)) => String::from_str("🛈 Username already exists"),
        (FormPage::Submit, Some(ApiError::InvalidSection)) => String::from_str("🛈 Invalid map name"),
        (FormPage::Submit, Some(ApiError::InvalidYtId)) => String::from_str("🛈 YT video id does not exist"),
        (FormPage::Delete, Some(ApiError::Unauthenticated)) => String::from_str("🛈 Please log in"),
        (FormPage::Delete, Some(ApiError::Unauthorized)) => String::from_str("🛈 Missing permission"),
        (FormPage::Delete, Some(ApiError::NotFound)) => String::from_str("🛈 Invalid run"),
        (FormPage::Username, Some(ApiError::AlreadyExists)) => String::from_str("🛈 Username already exists"),
        (FormPage::Password, Some(ApiError::InvalidCredentials)) => String::from_str("🛈 Incorrect password"),
        _ => String::from_str("🛈 Something went wrong. Try again"),
    }
}

/// What the avatar form says of a failure: a request whose arguments were refused (the
/// upload was no JPEG file, or too large) is told so.
pub fn avatar_form_error(arguments_refused: bool) -> (r: String)
    ensures
        r@ == (if arguments_refused {
            "🛈 File must be jpg and under 4 MB"@
        } else {
            "🛈 Something went wrong. Try again"@
        }),
{
    if arguments_refused {
        String::from_str("🛈 File must be jpg and under 4 MB")
    } else {
        String::from_str("🛈 Something went wrong. Try again")
    }
}

/// The upper-case form of an ASCII letter; any other character stays.
pub open spec fn ascii_upper(c: char) -> char {
    if 'a' <= c <= 'z' {
        ((c as u32) - 32) as char
    } else {
        c
    }
}

/// The upper-case form of an ASCII letter (`char::to_ascii_uppercase`).
fn to_ascii_upper(c: char) -> (r: char)
    ensures
        r == ascii_upper(c),
{
    if 'a' <= c && c <= 'z' {
        ((c as u8) - 32) as char
    } else {
        c
    }
}

/// The layout option a workshop code selects: its first character is the layout number;
/// a first character that is no digit selects none (`-1`), an empty code the first layout.
pub open spec fn spec_code_layout(code: Seq<char>) -> int {
    if code.len() == 0 {
        0
    } else if '0' <= code[0] <= '9' {
        (code[0] as int - '0' as int) - 1
    } else {
        -1
    }
}

/// The layout a workshop code selects is the number its first character names, counted
/// from 0 (`1` selects the first layout); a first character that is no digit selects
/// none, and an empty code the first layout.
pub proof fn lemma_code_layout_digit(code: Seq<char>)
    ensures
        code.len() == 0 ==> spec_code_layout(code) == 0,
        code.len() > 0 && '1' <= code[0] <= '9' ==> 0 <= spec_code_layout(code) <= 8
            && spec_code_layout(code) + 1 == code[0] as u32 - 48,
        code.len() > 0 && !('0' <= code[0] <= '9') ==> spec_code_layout(code) == -1,
{
}

/// The layout option a workshop code selects (counted from 0).
pub fn code_layout_index(code: &str) -> (r: i32)
    ensures
        r == spec_code_layout(code@),
{
    if code.unicode_len() == 0 {
        return 0;
    }
    let c = code.get_char(0);
    if '0' <= c && c <= '9' {
        (c as u32 - '0' as u32) as i32 - 1
    } else {
        -1
    }
}

/// The category option a workshop code selects: its second character, `s` for standard
/// and `g` for gravspeed in either case; any other character selects none (`-1`), a code
/// of fewer than two characters the first category.
pub open spec fn spec_code_category(code: Seq<char>) -> int {
    if code.len() < 2 {
        0
    } else if code[1] == 's' || code[1] == 'S' {
        0
    } else if code[1] == 'g' || code[1] == 'G' {
        1
    } else {
        -1
    }
}

/// The upper-case form of a character is `G` only for `g` and `G`, and `S` only for `s`
/// and `S`.
proof fn lemma_ascii_upper_letters(c: char)
    ensures
        ascii_upper(c) == 'G' <==> (c == 'G' || c == 'g'),
        ascii_upper(c) == 'S' <==> (c == 'S' || c == 's'),
{
    if 'a' <= c <= 'z' {
        assert(ascii_upper(c) as u32 == c as u32 - 32);
        assert(c == 'g' <==> c as u32 == 103);
        assert(c == 's' <==> c as u32 == 115);
    }
}

/// The category a workshop code selects by its second character: `s` or `S` select
/// Standard (0), `g` or `G` Gravspeed (1), any other character none (-1); a code shorter
/// than two characters selects Standard.
pub proof fn lemma_code_category_letters(code: Seq<char>)
    ensures
        code.len() < 2 ==> spec_code_category(code) == 0,
        code.len() >= 2 && (code[1] == 'S' || code[1] == 's') ==> spec_code_category(code) == 0,
        code.len() >= 2 && (code[1] == 'G' || code[1] == 'g') ==> spec_code_category(code) == 1,
        code.len() >= 2 && code[1] != 's' && code[1] != 'S' && code[1] != 'g' && code[1] != 'G'
            ==> spec_code_category(code) == -1,
{
}

/// The category a workshop code selects does not depend on the case of its second
/// character: codes of one length whose second characters agree up to ASCII case select
/// the same category.
pub proof fn lemma_code_category_ignores_case(a: Seq<char>, b: Seq<char>)
    requires
        a.len() == b.len(),
        a.len() >= 2 ==> ascii_upper(a[1]) == ascii_upper(b[1]),
    ensures
        spec_code_category(a) == spec_code_category(b),
{
    if a.len() >= 2 {
        lemma_ascii_upper_letters(a[1]);
        lemma_ascii_upper_letters(b[1]);
    }
}

/// The category option a workshop code selects (counted from 0).
pub fn code_category_index(code: &str) -> (r: i32)
    ensures
        r == spec_code_category(code@),
{
    if code.unicode_len() < 2 {
        return 0;
    }
    let c = code.get_char(1);
    if c == 's' || c == 'S' {
        0
    } else if c == 'g' || c == 'G' {
        1
    } else {
        -1
    }
}

/// The part of a workshop code that names the map: its third and fourth characters (as
/// many as there are), in upper case.
pub open spec fn code_map_key(code: Seq<char>) -> Seq<char> {
    let end = if code.len() < 4 {
        code.len() as int
    } else {
        4
    };
    if code.len() <= 2 {
        Seq::empty()
    } else {
        code.subrange(2, end).map_values(|c: char| ascii_upper(c))
    }
}

/// A map's code can be sliced at the place of the map key: its UTF-8 bytes number at
/// least four, and bytes 2 and 4 start characters.
pub open spec fn code_sliceable(code: Seq<char>) -> bool {
    let b = encode_utf8(code);
    b.len() >= 4 && is_char_boundary(b, 2) && is_char_boundary(b, 4)
}

/// A map's code carries the key: bytes 2 to 4 of it are the key's bytes.
pub open spec fn code_matches(code: Seq<char>, key: Seq<char>) -> bool {
    code_sliceable(code) && encode_utf8(code).subrange(2, 4) == encode_utf8(key)
}

/// The first map whose code carries the key.
pub open spec fn first_map_with(maps: Seq<MapCode>, key: Seq<char>, n: int) -> Option<int>
    decreases n,
{
    if n <= 0 {
        None
    } else {
        match first_map_with(maps, key, n - 1) {
            Some(i) => Some(i),
            None => if code_matches(maps[n - 1].code@, key) {
                Some(n - 1)
            } else {
                None
            },
        }
    }
}

/// Every map that the search reaches (up to and with the first that carries the key) has
/// a code that can be sliced at the key's place.
pub open spec fn search_safe(maps: Seq<MapCode>, key: Seq<char>) -> bool {
    forall|k: int|
        0 <= k < maps.len() && first_map_with(maps, key, k) is None ==> code_sliceable(#[trigger] maps[k].code@)
}

/// Once a map is found among the first `a`, it stays the one found among more.
proof fn lemma_first_map_stays(maps: Seq<MapCode>, key: Seq<char>, a: int, b: int)
    requires
        0 <= a <= b,
        first_map_with(maps, key, a) is Some,
    ensures
        first_map_with(maps, key, b) == first_map_with(maps, key, a),
    decreases b - a,
{
    if b > a {
        lemma_first_map_stays(maps, key, a, b - 1);
    }
}

/// The map a workshop code names: the first map whose code has, at bytes 2 to 4, the
/// code's third and fourth characters (upper case); `None` where no map has.
pub fn map_for_code(maps: &Vec<MapCode>, code: &str) -> (r: Option<String>)
    requires
        search_safe(maps@, code_map_key(code@)),
    ensures
        match first_map_with(maps@, code_map_key(code@), maps@.len() as int) {
            Some(i) => r matches Some(n) && n@ == maps@[i].name@,
            None => r is None,
        },
{
    let len = code.unicode_len();
    let mut key = String::new();
    if len > 2 {
        let end: usize = if len < 4 {
            len
        } else {
            4
        };
        let mut i: usize = 2;
        while i < end
            invariant
                len == code@.len(),
                2 < len,
                end == (if len < 4 { len } else { 4 }),
                2 <= i <= end,
                key@ == code@.subrange(2, i as int).map_values(|c: char| ascii_upper(c)),
            decreases end - i,
        {
            let c = to_ascii_upper(code.get_char(i));
            crate::text::push_char(&mut key, c);
            proof {
                assert(key@ =~= code@.subrange(2, i + 1).map_values(|c: char| ascii_upper(c)));
            }
            i = i + 1;
        }
    }
    proof {
        assert(key@ =~= code_map_key(code@));
    }
    let mut k: usize = 0;
    while k < maps.len()
        invariant
            k <= maps@.len(),
            search_safe(maps@, code_map_key(code@)),
            key@ == code_map_key(code@),
            first_map_with(maps@, key@, k as int) is None,
        decreases maps@.len() - k,
    {
        let mc = maps[k].code.as_str();
        proof {
            assert(code_sliceable(maps@[k as int].code@));
        }
        let cb = mc.as_bytes();
        let kb = key.as_str().as_bytes();
        let same = kb.len() == 2 && cb[2] == kb[0] && cb[3] == kb[1];
        proof {
            let b = encode_utf8(maps@[k as int].code@);
            if same {
                assert(b.subrange(2, 4) =~= kb@);
            } else {
                if b.subrange(2, 4) == kb@ {
                    assert(b.subrange(2, 4)[0] == b[2]);
                    assert(b.subrange(2, 4)[1] == b[3]);
                }
            }
            assert(same == code_matches(maps@[k as int].code@, key@));
        }
        if same {
            proof {
                assert(first_map_with(maps@, key@, k + 1) == Some(k as int));
                lemma_first_map_stays(maps@, key@, k + 1, maps@.len() as int);
            }
            return Some(maps[k].name.clone());
        }
        k = k + 1;
    }
    None
}

} // verus!
