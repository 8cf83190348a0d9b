//! Device-name matching against the user's regular expression, through the
//! `regex` crate.

use vstd::prelude::*;

use crate::errors::{Error, ErrorKind};
use crate::util::chars_clone;

verus! {

/// Whether `pattern` is a well-formed regular expression: whether
/// `regex::Regex::new` accepts it. Compilation depends on the pattern text
/// alone.
pub uninterp spec fn regex_pattern_ok(pattern: Seq<char>) -> bool;

/// Whether `text` matches the regular expression compiled from `pattern`.
/// The answer depends on the two character sequences alone.
pub uninterp spec fn regex_is_match(pattern: Seq<char>, text: Seq<char>) -> bool;

/// Relies on `regex::Regex::new` and `regex::Regex::is_match`: the first
/// either accepts a pattern or rejects it, the same way every time
/// (`regex_pattern_ok`), and the second reports whether the text matches, a
/// function of pattern and text alone (`regex_is_match`). The two calls are
/// wrapped together because a compiled `regex::Regex` carries no
/// specification-level link back to its pattern text.
#[verifier::external_body]
pub(crate) fn match_device_name(pattern: &String, text: &Vec<char>) -> (r: Option<bool>)
    ensures
        r is Some <==> regex_pattern_ok(pattern@),
        r matches Some(b) ==> b == regex_is_match(pattern@, text@),
{
    match regex::Regex::new(pattern.as_str()) {
        Ok(re) => Some(re.is_match(&text.iter().collect::<String>())),
        Err(_) => None,
    }
}

/// The views of a sequence of character vectors.
pub open spec fn spec_views(s: Seq<Vec<char>>) -> Seq<Seq<char>> {
    s.map_values(|v: Vec<char>| v@)
}

/// The entries of `names` that match `pattern`, in order.
pub open spec fn spec_matched(pattern: Seq<char>, names: Seq<Seq<char>>) -> Seq<Seq<char>>
    decreases names.len(),
{
    if names.len() == 0 {
        Seq::empty()
    } else {
        let rest = spec_matched(pattern, names.drop_last());
        if regex_is_match(pattern, names.last()) {
            rest.push(names.last())
        } else {
            rest
        }
    }
}

/// Discovery filter: of the directory entries under the devices directory,
/// the names matching the device pattern. A pattern the regular-expression
/// engine rejects is a configuration error; a pattern that matches no entry
/// at all reports that nothing was found.
pub fn select_device_names(pattern: &String, entries: &Vec<Vec<char>>) -> (r: Result<
    Vec<Vec<char>>,
    Error,
>)
    ensures
        r is Ok <==> regex_pattern_ok(pattern@) && spec_matched(pattern@, spec_views(entries@)).len()
            > 0,
        r matches Ok(v) ==> spec_views(v@) == spec_matched(pattern@, spec_views(entries@)),
        r matches Err(e) ==> (e.kind == ErrorKind::Config <==> !regex_pattern_ok(pattern@)),
        r matches Err(e) ==> (e.kind == ErrorKind::NotFound <==> regex_pattern_ok(pattern@)),
{
    let mut selected: Vec<Vec<char>> = Vec::new();
    let mut i: usize = 0;
    while i < entries.len()
        invariant
            0 <= i <= entries@.len(),
            i > 0 ==> regex_pattern_ok(pattern@),
            spec_views(selected@) == spec_matched(pattern@, spec_views(entries@).take(i as int)),
        decreases entries@.len() - i,
    {
        let name = &entries[i];
        let matched = match match_device_name(pattern, name) {
            Some(b) => b,
            None => {
                return Err(Error::of_kind(ErrorKind::Config));
            },
        };
        proof {
            assert(spec_views(entries@).take(i + 1 as int).drop_last() =~= spec_views(
                entries@,
            ).take(i as int));
            assert(spec_views(entries@).take(i + 1 as int).last() == entries@[i as int]@);
        }
        if matched {
            let ghost before = selected@;
            selected.push(chars_clone(name));
            proof {
                assert(spec_views(selected@) =~= spec_views(before).push(entries@[i as int]@));
            }
        }
        i += 1;
    }
    proof {
        assert(spec_views(entries@).take(entries@.len() as int) =~= spec_views(entries@));
    }
    if selected.len() == 0 {
        if entries.len() == 0 {
            // An empty directory listing: the pattern was never exercised.
            let probe: Vec<char> = Vec::new();
            if match_device_name(pattern, &probe).is_none() {
                return Err(Error::of_kind(ErrorKind::Config));
            }
        }
        proof {
            assert(spec_views(selected@).len() == selected@.len());
        }
        return Err(Error::of_kind(ErrorKind::NotFound));
    }
    proof {
        assert(spec_views(selected@).len() == selected@.len());
    }
    Ok(selected)
}

} // verus!
