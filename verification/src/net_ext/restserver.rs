//! The pure pieces of the diagnostic HTTP surface: extracting the path of a
//! request URL and naming response content types. The server itself lives
//! with the application.

use vstd::prelude::*;
use vstd::string::*;
use crate::common::errcode;

verus! {

pub const DEF_SERVER_PORT: u16 = 12000;

#[derive(Clone, Copy, Debug, PartialEq, Eq, Structural)]
pub enum E_CONTENT_TYPE {
    e_content_text,
    e_content_json,
    e_content_html,
}

/// Where the path of an URL starts: the first slash after the authority
/// (after `//` when present, else the first slash at all).
pub open spec fn spec_path_start(s: Seq<u8>) -> Option<int> {
    if spec_find2(s, 47, 47) is Some {
        let auth = spec_find2(s, 47, 47)->Some_0 + 2;
        spec_find_from(s, 47, auth)
    } else {
        spec_find_from(s, 47, 0)
    }
}

/// First position at or after `from` holding byte b.
pub open spec fn spec_find_from(s: Seq<u8>, b: u8, from: int) -> Option<int>
    decreases s.len() - from,
{
    if from < 0 || from >= s.len() {
        Option::None
    } else if s[from] == b {
        Option::Some(from)
    } else {
        spec_find_from(s, b, from + 1)
    }
}

/// First position where bytes b1 b2 stand adjacent.
pub open spec fn spec_find2(s: Seq<u8>, b1: u8, b2: u8) -> Option<int>
    decreases s.len(),
{
    if s.len() < 2 {
        Option::None
    } else if s[0] == b1 && s[1] == b2 {
        Option::Some(0)
    } else {
        match spec_find2(s.drop_first(), b1, b2) {
            Option::None => Option::None,
            Option::Some(p) => Option::Some(p + 1),
        }
    }
}

fn find_from(s: &[u8], b: u8, from: usize) -> (r: Option<usize>)
    ensures
        r is Some <==> spec_find_from(s@, b, from as int) is Some,
        r matches Some(p) ==> Some(p as int) == spec_find_from(s@, b, from as int) && from <= p
            < s@.len() && s@[p as int] == b,
    decreases s@.len() - from,
{
    if from >= s.len() {
        return None;
    }
    if s[from] == b {
        return Some(from);
    }
    find_from(s, b, from + 1)
}

fn find2(s: &[u8], b1: u8, b2: u8) -> (r: Option<usize>)
    ensures
        r is Some <==> spec_find2(s@, b1, b2) is Some,
        r matches Some(p) ==> Some(p as int) == spec_find2(s@, b1, b2) && p + 1 < s@.len()
            && s@[p as int] == b1 && s@[p + 1] == b2,
{
    if s.len() < 2 {
        return None;
    }
    let n = s.len();
    let mut i: usize = 0;
    while i + 1 < n
        invariant
            i + 1 <= n,
            n == s@.len(),
            n >= 2,
            forall|k: int|
                0 <= k < i ==> !((#[trigger] s@[k]) == b1 && s@[k + 1] == b2),
        decreases n - i,
    {
        if s[i] == b1 && s[i + 1] == b2 {
            proof {
                lemma_find2_at(s@, b1, b2, i as int);
            }
            return Some(i);
        }
        i = i + 1;
    }
    proof {
        assert forall|k: int| 0 <= k && k + 1 < s@.len() implies !((#[trigger] s@[k]) == b1
            && s@[k + 1] == b2) by {
            assert(k < i);
        }
        lemma_find2_none(s@, b1, b2, 0);
    }
    None
}

/// When no adjacent pair stands before i and one stands at i, the first
/// adjacent pair is at i.
proof fn lemma_find2_at(s: Seq<u8>, b1: u8, b2: u8, i: int)
    requires
        0 <= i,
        i + 1 < s.len(),
        s[i] == b1 && s[i + 1] == b2,
        forall|k: int| 0 <= k < i ==> !((#[trigger] s[k]) == b1 && s[k + 1] == b2),
    ensures
        spec_find2(s, b1, b2) == Option::Some(i),
    decreases i,
{
    if i == 0 {
    } else {
        lemma_find2_at(s.drop_first(), b1, b2, i - 1);
    }
}

/// When no adjacent pair stands anywhere from position j on, there is none.
proof fn lemma_find2_none(s: Seq<u8>, b1: u8, b2: u8, j: int)
    requires
        j == 0,
        forall|k: int| 0 <= k && k + 1 < s.len() ==> !((#[trigger] s[k]) == b1 && s[k + 1] == b2),
    ensures
        spec_find2(s, b1, b2) is None,
    decreases s.len(),
{
    if s.len() >= 2 {
        assert forall|k: int|
            0 <= k && k + 1 < s.drop_first().len() implies !((#[trigger] s.drop_first()[k]) == b1
            && s.drop_first()[k + 1] == b2) by {
            assert(s.drop_first()[k] == s[k + 1]);
            assert(s.drop_first()[k + 1] == s[k + 2]);
        }
        lemma_find2_none(s.drop_first(), b1, b2, 0);
    }
}

/// The path component of an ASCII request URL: everything from the first
/// slash after the scheme's `//` (or the first slash at all, when there is
/// no `//`). `NOT_FOUND` when the URL holds no path; a URL with non-ASCII
/// bytes is refused the same way.
pub fn get_url_path(url: &str) -> (r: Result<String, errcode::RESULT>)
    ensures
        r matches Ok(p) ==> url.is_ascii() && (spec_path_start(url.spec_bytes()) matches Some(st)
            && p@ == url@.subrange(st, url@.len() as int)),
        url.is_ascii() && spec_path_start(url.spec_bytes()) is None ==> r == Result::<
            String,
            errcode::RESULT,
        >::Err(errcode::ERROR_NOT_FOUND),
        !url.is_ascii() ==> r == Result::<String, errcode::RESULT>::Err(errcode::ERROR_NOT_FOUND),
{
    if !url.is_ascii() {
        return Err(errcode::ERROR_NOT_FOUND);
    }
    proof {
        vstd::string::is_ascii_spec_bytes(url);
    }
    let bytes = url.as_bytes();
    let blen = bytes.len();
    let start = match find2(bytes, 47, 47) {
        None => find_from(bytes, 47, 0),
        Some(pos) => {
            proof {
                assert(pos + 2 <= blen);
            }
            find_from(bytes, 47, pos + 2)
        },
    };
    match start {
        None => Err(errcode::ERROR_NOT_FOUND),
        Some(pos) => Ok(url.substring_ascii(pos, blen).to_owned()),
    }
}

} // verus!
