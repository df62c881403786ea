//! Paths of the control filesystem, held as text with `/` as separator.

use vstd::prelude::*;
use vstd::string::*;

verus! {

/// Whether `p` starts at the filesystem root.
pub open spec fn is_absolute(p: Seq<char>) -> bool {
    p.len() > 0 && p[0] == '/'
}

/// Whether a separator has to be put behind `base` before a component.
pub open spec fn needs_separator(base: Seq<char>) -> bool {
    base.len() > 0 && base.last() != '/'
}

/// `base` extended by `comp`: an absolute `comp` replaces `base`; otherwise
/// `comp` follows `base`, with one separator between them unless `base` is
/// empty or already ends in one.
pub open spec fn joined(base: Seq<char>, comp: Seq<char>) -> Seq<char> {
    if is_absolute(comp) {
        comp
    } else if needs_separator(base) {
        base + seq!['/'] + comp
    } else {
        base + comp
    }
}

/// Extends `base` by the component `comp`.
pub fn join(base: &String, comp: &str) -> (res: String)
    ensures
        res@ == joined(base@, comp@),
{
    let comp_len: usize = comp.unicode_len();
    if comp_len > 0 && comp.get_char(0) == '/' {
        return String::from_str(comp);
    }
    let base_len: usize = base.as_str().unicode_len();
    let mut res = base.clone();
    if base_len > 0 && base.as_str().get_char(base_len - 1) != '/' {
        proof {
            reveal_strlit("/");
            assert("/"@ =~= seq!['/']);
        }
        res.append("/");
    }
    res.append(comp);
    res
}

} // verus!
