use vstd::prelude::*;
use crate::error::RLError;

verus! {

/// A piece of a string with interpolations: literal text, or the source of
/// an expression written between `#{` and `}`.
#[derive(Debug)]
pub enum StrSection {
    Str(String),
    Expr(String),
}

/// A section followed by the marker that ended it: `#{` after literal
/// text, `}` after an expression.
pub open spec fn marked(sec: StrSection) -> Seq<char> {
    match sec {
        StrSection::Str(t) => t@ + seq!['#', '{'],
        StrSection::Expr(t) => t@ + seq!['}'],
    }
}

/// The text of sections that were each ended by their marker.
pub open spec fn covered(secs: Seq<StrSection>) -> Seq<char>
    decreases secs.len(),
{
    if secs.len() == 0 {
        Seq::empty()
    } else {
        covered(secs.drop_last()) + marked(secs.last())
    }
}

/// The text that the sections were cut from: every section but a literal
/// one at the end was ended by its marker.
pub open spec fn rejoin(secs: Seq<StrSection>) -> Seq<char> {
    if secs.len() > 0 && secs.last() is Str {
        covered(secs.drop_last()) + (match secs.last() {
            StrSection::Str(t) => t@,
            StrSection::Expr(t) => t@,
        })
    } else {
        covered(secs)
    }
}

/// Whether an expression opens at `j`: `#` at `j - 1`, `{` at `j`.
pub open spec fn opens_at(s: Seq<char>, j: int) -> bool {
    1 <= j < s.len() && s[j - 1] == '#' && s[j] == '{'
}

/// Whether some `#{` in `s` has no `}` after it.
pub open spec fn unclosed(s: Seq<char>) -> bool {
    exists|j: int| opens_at(s, j) && forall|k: int| j < k < s.len() ==> #[trigger] s[k] != '}'
}

/// Whether an expression is open at position `i`: some `#{` before it has no
/// `}` between it and `i`.
pub open spec fn open_before(s: Seq<char>, i: int) -> bool {
    exists|j: int| #[trigger] opens_at(s, j) && j < i && forall|k: int| j < k < i ==> #[trigger] s[k] != '}'
}

/// Whether `t` holds `#{`.
pub open spec fn holds_open(t: Seq<char>) -> bool {
    exists|j: int| #[trigger] opens_at(t, j)
}

/// A cut section: literal text holds no `#{`, an expression holds no `}`.
pub open spec fn well_cut(sec: StrSection) -> bool {
    match sec {
        StrSection::Str(t) => !holds_open(t@),
        StrSection::Expr(t) => !t@.contains('}'),
    }
}

/// The text of a section.
pub open spec fn section_text(sec: StrSection) -> Seq<char> {
    match sec {
        StrSection::Str(t) => t@,
        StrSection::Expr(t) => t@,
    }
}

/// How sections follow one another: an expression comes right after the
/// literal text that its `#{` ended, and literal text that comes right after
/// other literal text was cut by a later `#{` before any `}`, so holds no `}`.
pub open spec fn well_ordered(secs: Seq<StrSection>) -> bool {
    &&& forall|m: int| 0 <= m < secs.len() && #[trigger] secs[m] is Expr ==> m > 0 && secs[m - 1] is Str
    &&& forall|m: int|
        0 < m < secs.len() && #[trigger] secs[m] is Str && secs[m - 1] is Str ==> !section_text(
            secs[m],
        ).contains('}')
}

/// Cuts `s` at each `#{` and at the `}` that closes it. An expression left
/// open at the end is an error.
pub fn split_str(s: &str) -> (r: Result<Vec<StrSection>, RLError>)
    ensures
        r is Ok ==> (r matches Ok(secs) && rejoin(secs@) == s@),
        r is Err <==> unclosed(s@),
        r matches Err(e) ==> (e matches RLError::Host(m) && m@
            == "Unclosed expression while interpolating string."@),
        r matches Ok(secs) ==> well_ordered(secs@),
        r matches Ok(secs) ==> forall|m: int| 0 <= m < secs@.len() ==> well_cut(#[trigger] secs@[m]),
        (forall|j: int| 0 <= j < s@.len() ==> s@[j] != '#') ==> r is Ok,
{
    let n = s.unicode_len();
    let mut secs: Vec<StrSection> = Vec::new();
    let mut in_expr = false;
    let mut last: usize = 0;
    let mut i: usize = 0;
    let mut last_ch = '\0';
    while i < n
        invariant
            i <= n == s@.len(),
            last <= i,
            i > 0 ==> last_ch == s@[i - 1],
            i == 0 ==> last_ch == '\0',
            last > 0 ==> (s@[last - 1] == '{' || s@[last - 1] == '}'),
            covered(secs@) == s@.subrange(0, last as int),
            in_expr ==> secs@.len() > 0 && secs@.last() is Str,
            !in_expr ==> secs@.len() == 0 || secs@.last() is Expr,
            in_expr ==> exists|j: int| 0 <= j < i && s@[j] == '#',
            in_expr == open_before(s@, i as int),
            forall|j: int| last < j < i ==> !opens_at(s@, j),
            in_expr ==> forall|k: int| last <= k < i ==> s@[k] != '}',
            forall|m: int| 0 <= m < secs@.len() ==> well_cut(#[trigger] secs@[m]),
            well_ordered(secs@),
        decreases n - i,
    {
        let ch = s.get_char(i);
        let ghost was_open = in_expr;
        proof {
            if ch != '}' && !opens_at(s@, i as int) {
                assert(open_before(s@, i + 1) == open_before(s@, i as int)) by {
                    if open_before(s@, i as int) {
                        let j = choose|j: int| #[trigger] opens_at(s@, j) && j < i && forall|k: int| j < k < i ==> #[trigger] s@[k] != '}';
                        assert(forall|k: int| j < k < i + 1 ==> #[trigger] s@[k] != '}');
                    }
                    if open_before(s@, i + 1) {
                        let j = choose|j: int| #[trigger] opens_at(s@, j) && j < i + 1 && forall|k: int| j < k < i + 1 ==> #[trigger] s@[k] != '}';
                        assert(j != i);
                        assert(forall|k: int| j < k < i ==> #[trigger] s@[k] != '}');
                    }
                }
            }
            if ch == '}' {
                assert(!open_before(s@, i + 1)) by {
                    if open_before(s@, i + 1) {
                        let j = choose|j: int| #[trigger] opens_at(s@, j) && j < i + 1 && forall|k: int| j < k < i + 1 ==> #[trigger] s@[k] != '}';
                        assert(s@[i as int] == '}');
                        assert(j < i);
                    }
                }
            }
            if opens_at(s@, i as int) {
                assert(forall|k: int| i < k < i + 1 ==> #[trigger] s@[k] != '}');
                assert(open_before(s@, i + 1));
            }
        }
        if ch == '{' && last_ch == '#' && i > 0 {
            let piece = String::from_str(s.substring_char(last, i - 1));
            let ghost before = secs@;
            proof {
                if in_expr {
                    let t = piece@;
                    if t.contains('}') {
                        let k = choose|k: int| 0 <= k < t.len() && t[k] == '}';
                        assert(s@[last + k] == '}');
                    }
                }
                let t = piece@;
                if holds_open(t) {
                    let j = choose|j: int| #[trigger] opens_at(t, j);
                    assert(opens_at(s@, last + j));
                }
            }
            secs.push(StrSection::Str(piece));
            assert(forall|m: int| 0 <= m < before.len() ==> secs@[m] == before[m]);
            assert(secs@.drop_last() =~= before);
            in_expr = true;
            assert(s@[i - 1] == '#');
            assert(s@.subrange(0, i + 1) =~= s@.subrange(0, last as int) + s@.subrange(last as int, i - 1) + seq!['#', '{']);
            last = i + 1;
        } else if ch == '}' && in_expr {
            let piece = String::from_str(s.substring_char(last, i));
            let ghost before = secs@;
            proof {
                let t = piece@;
                if t.contains('}') {
                    let k = choose|k: int| 0 <= k < t.len() && t[k] == '}';
                    assert(s@[last + k] == '}');
                }
            }
            secs.push(StrSection::Expr(piece));
            assert(forall|m: int| 0 <= m < before.len() ==> secs@[m] == before[m]);
            assert(secs@.drop_last() =~= before);
            in_expr = false;
            assert(s@.subrange(0, i + 1) =~= s@.subrange(0, last as int) + s@.subrange(last as int, i as int) + seq!['}']);
            last = i + 1;
        }
        i = i + 1;
        last_ch = ch;
    }
    if in_expr {
        proof {
            reveal_strlit("Unclosed expression while interpolating string.");
        }
        assert(unclosed(s@)) by {
            let j = choose|j: int| #[trigger] opens_at(s@, j) && j < i && forall|k: int| j < k < i ==> #[trigger] s@[k] != '}';
            assert(forall|k: int| j < k < s@.len() ==> #[trigger] s@[k] != '}');
        }
        return Err(RLError::Host(String::from_str("Unclosed expression while interpolating string.")));
    }
    assert(!unclosed(s@)) by {
        if unclosed(s@) {
            let j = choose|j: int| opens_at(s@, j) && forall|k: int| j < k < s@.len() ==> #[trigger] s@[k] != '}';
            assert(open_before(s@, i as int));
        }
    }
    if last != i {
        let piece = String::from_str(s.substring_char(last, i));
        let ghost before = secs@;
        proof {
            let t = piece@;
            if holds_open(t) {
                let j = choose|j: int| #[trigger] opens_at(t, j);
                assert(opens_at(s@, last + j));
            }
        }
        secs.push(StrSection::Str(piece));
        assert(forall|m: int| 0 <= m < before.len() ==> secs@[m] == before[m]);
        assert(secs@.drop_last() =~= before);
        assert(s@ =~= s@.subrange(0, last as int) + s@.subrange(last as int, i as int));
    } else {
        assert(s@.subrange(0, i as int) =~= s@);
    }
    Ok(secs)
}

} // verus!
