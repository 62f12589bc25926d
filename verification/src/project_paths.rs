//! A project's base folder from a folder inside its ComfyUI media: the
//! trailing `media/comfy[/YYYY-MM-DD]` parts are taken off.
//!
//! A path is given as its components in order, as the platform splits it: a
//! normal component by its name, any other (root, prefix, `.`, `..`) as
//! `None`.

use vstd::prelude::*;
use crate::text::{chars_of, eq_ignore_case, eq_ignore_case_lit};

verus! {

/// `YYYY-MM-DD`: ten characters, dashes at 4 and 7, digits elsewhere.
pub open spec fn is_date_component(s: Seq<char>) -> bool {
    &&& s.len() == 10
    &&& s[4] == '-'
    &&& s[7] == '-'
    &&& forall|i: int| 0 <= i < 10 && i != 4 && i != 7 ==> '0' <= #[trigger] s[i] <= '9'
}

/// The component is a normal one named `name`, ignoring case.
pub open spec fn named(c: Option<Seq<char>>, name: Seq<char>) -> bool {
    c matches Some(n) && eq_ignore_case(n, name)
}

/// The path ends with `media/comfy/<date>`.
pub open spec fn ends_media_comfy_date(c: Seq<Option<Seq<char>>>) -> bool {
    &&& c.len() >= 3
    &&& c.last() matches Some(d) && is_date_component(d)
    &&& named(c[c.len() - 2], "comfy"@)
    &&& named(c[c.len() - 3], "media"@)
}

/// The path ends with `media/comfy`.
pub open spec fn ends_media_comfy(c: Seq<Option<Seq<char>>>) -> bool {
    &&& c.len() >= 2
    &&& named(c.last(), "comfy"@)
    &&& named(c[c.len() - 2], "media"@)
}

/// The path with every trailing `media/comfy[/date]` taken off.
pub open spec fn strip_media(c: Seq<Option<Seq<char>>>) -> Seq<Option<Seq<char>>>
    decreases c.len(),
{
    if ends_media_comfy_date(c) {
        strip_media(c.subrange(0, c.len() - 3))
    } else if ends_media_comfy(c) {
        strip_media(c.subrange(0, c.len() - 2))
    } else {
        c
    }
}

/// `normalize_project_base_path`: the path stripped (see `strip_media`),
/// or the path itself when nothing would be left.
pub open spec fn normalized_base(c: Seq<Option<Seq<char>>>) -> Seq<Option<Seq<char>>> {
    let n = strip_media(c);
    if n.len() == 0 {
        c
    } else {
        n
    }
}

/// The view of a list of components.
pub open spec fn components_view(v: Seq<Option<String>>) -> Seq<Option<Seq<char>>> {
    v.map_values(|c: Option<String>| crate::screenplay::opt_string_view(c))
}

/// Whether a component is a date.
fn is_date_exec(s: &String) -> (r: bool)
    ensures
        r == is_date_component(s@),
{
    let c = chars_of(s.as_str());
    if c.len() != 10 || c[4] != '-' || c[7] != '-' {
        return false;
    }
    let mut i: usize = 0;
    while i < 10
        invariant
            c@ == s@,
            c@.len() == 10,
            i <= 10,
            forall|k: int| 0 <= k < i && k != 4 && k != 7 ==> '0' <= #[trigger] c@[k] <= '9',
        decreases 10 - i,
    {
        if i != 4 && i != 7 && !('0' <= c[i] && c[i] <= '9') {
            return false;
        }
        i = i + 1;
    }
    true
}

/// Whether an optional component is named `lit`, ignoring case.
fn named_exec(c: &Option<String>, lit: &str) -> (r: bool)
    ensures
        r == named(crate::screenplay::opt_string_view(*c), lit@),
{
    match c {
        Some(n) => eq_ignore_case_lit(chars_of(n.as_str()).as_slice(), lit),
        None => false,
    }
}

/// `normalize_project_base_path`, on the path's components; see
/// `normalized_base`.
pub fn normalize_project_base_path(components: Vec<Option<String>>) -> (r: Vec<Option<String>>)
    ensures
        components_view(r@) == normalized_base(components_view(components@)),
{
    let ghost orig = components_view(components@);
    let mut cur: Vec<Option<String>> = Vec::new();
    let mut k: usize = 0;
    while k < components.len()
        invariant
            k <= components@.len(),
            orig == components_view(components@),
            components_view(cur@) == orig.subrange(0, k as int),
        decreases components@.len() - k,
    {
        let item = match &components[k] {
            Some(s) => Some(s.clone()),
            None => None,
        };
        let ghost before = components_view(cur@);
        let ghost iv = crate::screenplay::opt_string_view(item);
        assert(iv == orig[k as int]);
        cur.push(item);
        proof {
            assert(components_view(cur@) =~= before.push(iv));
            assert(components_view(cur@) =~= orig.subrange(0, k + 1));
        }
        k = k + 1;
    }
    assert(orig.subrange(0, k as int) =~= orig);
    loop
        invariant
            orig == components_view(components@),
            strip_media(components_view(cur@)) == strip_media(orig),
        ensures
            components_view(cur@) == strip_media(orig),
        decreases cur@.len(),
    {
        let ghost cv = components_view(cur@);
        let n = cur.len();
        let date_tail = n >= 3 && match &cur[n - 1] {
            Some(d) => is_date_exec(d),
            None => false,
        } && named_exec(&cur[n - 2], "comfy") && named_exec(&cur[n - 3], "media");
        if date_tail {
            assert(ends_media_comfy_date(cv));
            let _ = cur.pop();
            let _ = cur.pop();
            let _ = cur.pop();
            assert(components_view(cur@) =~= cv.subrange(0, cv.len() - 3));
        } else {
            let plain_tail = n >= 2 && named_exec(&cur[n - 1], "comfy") && named_exec(&cur[n - 2], "media");
            if plain_tail {
                assert(!ends_media_comfy_date(cv));
                assert(ends_media_comfy(cv));
                let _ = cur.pop();
                let _ = cur.pop();
                assert(components_view(cur@) =~= cv.subrange(0, cv.len() - 2));
            } else {
                assert(!ends_media_comfy(cv));
                assert(!ends_media_comfy_date(cv)) by {
                    if n >= 3 {
                        assert(cv.last() == crate::screenplay::opt_string_view(cur@[n - 1]));
                    }
                }
                break;
            }
        }
    }
    if cur.len() == 0 {
        components
    } else {
        cur
    }
}

} // verus!
