//! Path sanitization for traversal prevention.
//!
//! A stored filename must be a clean relative path: no null bytes, no
//! parent-directory components, no leading or doubled slashes, no
//! current-directory components. `sanitize_path` rejects dangerous input
//! and normalizes the rest.

use crate::strutil::{spec_split, split_slashes, str_contains_char, str_eq};
use vstd::prelude::*;
use vstd::string::StrSliceExecFns;
use vstd::string::StringExecFns;

verus! {

/// Whether a path component survives sanitization: it is non-empty and is
/// not a bare current-directory reference.
pub open spec fn spec_component_kept(c: Seq<char>) -> bool {
    c.len() > 0 && c != "."@
}

/// The components of a split that sanitization keeps.
pub open spec fn spec_kept(parts: Seq<Seq<char>>) -> Seq<Seq<char>> {
    parts.filter(|c: Seq<char>| spec_component_kept(c))
}

/// The pieces joined with `sep` between them.
pub open spec fn spec_join(parts: Seq<Seq<char>>, sep: char) -> Seq<char>
    decreases parts.len(),
{
    if parts.len() == 0 {
        Seq::empty()
    } else if parts.len() == 1 {
        parts[0]
    } else {
        spec_join(parts.drop_last(), sep) + seq![sep] + parts.last()
    }
}

/// What sanitization yields for a path: a rejection for a null byte, a
/// parent-directory component, or a path with nothing left after dropping
/// empty and current-directory components; otherwise the kept components
/// joined back with single slashes.
pub open spec fn spec_sanitize(path: Seq<char>) -> Result<Seq<char>, Seq<char>> {
    if path.contains('\u{0}') {
        Err("Invalid path: contains null byte"@)
    } else if spec_split(path, '/').contains(".."@) {
        Err("Invalid path: contains parent directory reference (..)"@)
    } else {
        let comps = spec_kept(spec_split(path, '/'));
        if comps.len() == 0 {
            Err("Invalid path: empty after sanitization"@)
        } else {
            Ok(spec_join(comps, '/'))
        }
    }
}

/// Sanitizes a file path against directory traversal.
///
/// Rejects a path holding a null byte or a `..` component outright;
/// otherwise drops empty components (leading, doubled or trailing slashes)
/// and bare `.` components, rejects the path if nothing remains, and
/// returns the kept components joined with single slashes.
pub fn sanitize_path(path: &str) -> (r: Result<String, &'static str>)
    ensures
        r is Ok <==> spec_sanitize(path@) is Ok,
        r matches Ok(s) ==> spec_sanitize(path@) == Ok::<Seq<char>, Seq<char>>(s@),
        r matches Err(e) ==> spec_sanitize(path@) == Err::<Seq<char>, Seq<char>>(e@),
{
    if str_contains_char(path, '\u{0}') {
        return Err("Invalid path: contains null byte");
    }
    let parts = split_slashes(path);
    let ghost views = parts@.map_values(|p: String| p@);
    let pn = parts.len();
    for j in 0..pn
        invariant
            pn == parts@.len(),
            views == parts@.map_values(|p: String| p@),
            views == spec_split(path@, '/'),
            !path@.contains('\u{0}'),
            forall|k: int| 0 <= k < j ==> (#[trigger] views[k]) != ".."@,
    {
        if str_eq(parts[j].as_str(), "..") {
            proof {
                assert(views[j as int] == ".."@);
                assert(spec_split(path@, '/').contains(".."@));
            }
            return Err("Invalid path: contains parent directory reference (..)");
        }
    }
    proof {
        assert(!spec_split(path@, '/').contains(".."@));
    }
    let mut comps: Vec<String> = Vec::new();
    proof {
        reveal(Seq::filter);
        assert(views.subrange(0, 0) =~= Seq::<Seq<char>>::empty());
        assert(comps@.map_values(|p: String| p@) =~= spec_kept(views.subrange(0, 0)));
    }
    for j in 0..pn
        invariant
            pn == parts@.len(),
            views == parts@.map_values(|p: String| p@),
            comps@.map_values(|p: String| p@) =~= spec_kept(views.subrange(0, j as int)),
    {
        let ghost comps0 = comps@;
        let part: &String = &parts[j];
        let keep = !part.as_str().is_empty() && !str_eq(part.as_str(), ".");
        proof {
            assert(keep == spec_component_kept(views[j as int]));
        }
        if keep {
            comps.push(part.clone());
        }
        proof {
            reveal(Seq::filter);
            let pre = views.subrange(0, j as int);
            let post = views.subrange(0, j as int + 1);
            assert(post.drop_last() =~= pre);
            assert(post.last() == views[j as int]);
            if keep {
                assert(comps@.map_values(|p: String| p@) =~= comps0.map_values(
                    |p: String| p@,
                ).push(views[j as int]));
            }
        }
    }
    proof {
        assert(views.subrange(0, pn as int) =~= views);
    }
    let ghost kept = spec_kept(views);
    if comps.len() == 0 {
        proof {
            assert(kept.len() == 0);
        }
        return Err("Invalid path: empty after sanitization");
    }
    let cn = comps.len();
    let mut out = String::new();
    for j in 0..cn
        invariant
            cn == comps@.len(),
            cn == kept.len(),
            forall|k: int| 0 <= k < cn ==> (#[trigger] comps@[k])@ == kept[k],
            j == 0 ==> out@ =~= Seq::<char>::empty(),
            j > 0 ==> out@ =~= spec_join(kept.subrange(0, j as int), '/'),
    {
        if j > 0 {
            out.append("/");
        }
        out.append(comps[j].as_str());
        proof {
            reveal_strlit("/");
            assert("/"@ =~= seq!['/']);
            let post = kept.subrange(0, j as int + 1);
            assert(post.drop_last() =~= kept.subrange(0, j as int));
            assert(post.last() == kept[j as int]);
            if j == 0 {
                assert(kept.subrange(0, 1) =~= seq![kept[0]]);
                assert(out@ =~= kept[0]);
            }
        }
    }
    proof {
        assert(kept.subrange(0, cn as int) =~= kept);
        assert(out@ == spec_join(kept, '/'));
    }
    Ok(out)
}

} // verus!
