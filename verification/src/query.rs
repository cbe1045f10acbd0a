use vstd::prelude::*;
use crate::model::{LogModel, RowV, rows_view};
use crate::strings::{is_substring, str_contains, str_eq};

verus! {

/// A conjunctive query filter over stored rows; each condition is held in
/// its canonical serialized form, as the store compares columns.
#[verifier::ext_equal]
pub struct FilterV {
    /// Require serialized-source equality with this canonical form.
    pub source: Option<Seq<char>>,
    /// Non-empty: require the level column to equal one of these tokens.
    /// Empty: no level condition at all.
    pub levels: Seq<Seq<char>>,
    /// Require this text as a literal substring of the content column.
    pub content: Option<Seq<char>>,
}

/// Row `r` satisfies every condition of `f`.
pub open spec fn row_matches(r: RowV, f: FilterV) -> bool {
    &&& (f.source matches Some(s) ==> r.source == s)
    &&& (f.levels.len() > 0 ==> f.levels.contains(r.level))
    &&& (f.content matches Some(c) ==> is_substring(r.content, c))
}

/// The rows of `rows` that satisfy `f`, in order.
pub open spec fn filter_rows(rows: Seq<RowV>, f: FilterV) -> Seq<RowV> {
    rows.filter(|r: RowV| row_matches(r, f))
}

/// Filter correctness: the filtered rows are exactly the stored rows that
/// satisfy every condition of the filter, kept in store order.
pub proof fn lemma_filter_correctness(rows: Seq<RowV>, f: FilterV)
    ensures
        filter_rows(rows, f).len() <= rows.len(),
        forall|i: int|
            0 <= i < filter_rows(rows, f).len() ==> row_matches(
                #[trigger] filter_rows(rows, f)[i],
                f,
            ),
        forall|i: int|
            0 <= i < rows.len() && row_matches(#[trigger] rows[i], f) ==> filter_rows(
                rows,
                f,
            ).contains(rows[i]),
{
    let pred = |r: RowV| row_matches(r, f);
    rows.lemma_filter_len(pred);
    assert forall|i: int|
        0 <= i < filter_rows(rows, f).len() implies row_matches(
        #[trigger] filter_rows(rows, f)[i],
        f,
    ) by {
        rows.lemma_filter_pred(pred, i);
    }
    assert forall|i: int|
        0 <= i < rows.len() && row_matches(#[trigger] rows[i], f) implies filter_rows(
        rows,
        f,
    ).contains(rows[i]) by {
        rows.lemma_filter_contains(pred, i);
    }
}

/// The exec arguments describe the filter `f`: the canonical source form,
/// the level tokens, and the content search text.
pub open spec fn describes_filter(
    source_canon: Option<&String>,
    level_tokens: Seq<String>,
    content: Option<&str>,
    f: FilterV,
) -> bool {
    &&& (match source_canon {
        Some(s) => f.source == Some(s@),
        None => f.source is None,
    })
    &&& f.levels == level_tokens.map_values(|t: String| t@)
    &&& (match content {
        Some(c) => f.content == Some(c@),
        None => f.content is None,
    })
}

/// Evaluate the filter on one stored row.
fn row_matches_exec(
    row: &LogModel,
    source_canon: Option<&String>,
    level_tokens: &Vec<String>,
    content: Option<&str>,
    Ghost(f): Ghost<FilterV>,
) -> (r: bool)
    requires
        describes_filter(source_canon, level_tokens@, content, f),
    ensures
        r == row_matches(row@, f),
{
    match source_canon {
        Some(s) => {
            if !str_eq(row.source.as_str(), s.as_str()) {
                return false;
            }
        },
        None => {},
    }
    let n = level_tokens.len();
    if n > 0 {
        let mut found = false;
        let mut j: usize = 0;
        while j < n
            invariant
                j <= n,
                n == level_tokens@.len(),
                f.levels == level_tokens@.map_values(|t: String| t@),
                found == exists|k: int|
                    0 <= k < j && #[trigger] level_tokens@[k]@ == row@.level,
            decreases n - j,
        {
            if str_eq(row.level.as_str(), level_tokens[j].as_str()) {
                found = true;
            }
            j += 1;
        }
        proof {
            if found {
                let k = choose|k: int| 0 <= k < n && #[trigger] level_tokens@[k]@ == row@.level;
                assert(f.levels[k] == row@.level);
                assert(f.levels.contains(row@.level));
            } else {
                assert forall|k: int| 0 <= k < f.levels.len() implies #[trigger] f.levels[k]
                    != row@.level by {
                    assert(level_tokens@[k]@ != row@.level);
                }
            }
        }
        if !found {
            return false;
        }
    }
    match content {
        Some(c) => {
            if !str_contains(row.content.as_str(), c) {
                return false;
            }
        },
        None => {},
    }
    true
}

/// The rows of `rows` that satisfy the filter, in order.
pub(crate) fn select_rows(
    rows: &Vec<LogModel>,
    source_canon: Option<&String>,
    level_tokens: &Vec<String>,
    content: Option<&str>,
    Ghost(f): Ghost<FilterV>,
) -> (r: Vec<LogModel>)
    requires
        describes_filter(source_canon, level_tokens@, content, f),
    ensures
        rows_view(r@) == filter_rows(rows_view(rows@), f),
{
    let mut out: Vec<LogModel> = Vec::new();
    let n = rows.len();
    let mut i: usize = 0;
    proof {
        assert(rows_view(rows@.subrange(0, 0)) =~= Seq::<RowV>::empty());
        assert(rows_view(out@) =~= filter_rows(rows_view(rows@.subrange(0, 0)), f));
    }
    while i < n
        invariant
            i <= n,
            n == rows@.len(),
            describes_filter(source_canon, level_tokens@, content, f),
            rows_view(out@) == filter_rows(rows_view(rows@.subrange(0, i as int)), f),
        decreases n - i,
    {
        let ghost prefix = rows@.subrange(0, i as int);
        let ghost prefix1 = rows@.subrange(0, i as int + 1);
        let ghost x = rows@[i as int]@;
        let ghost old_out = out@;
        proof {
            assert(prefix1 =~= prefix.push(rows@[i as int]));
            assert(rows_view(prefix1) =~= rows_view(prefix).push(x));
            rows_view(prefix).lemma_filter_push(x, |r: RowV| row_matches(r, f));
        }
        if row_matches_exec(&rows[i], source_canon, level_tokens, content, Ghost(f)) {
            out.push(rows[i].duplicate());
            proof {
                assert(rows_view(out@) =~= rows_view(old_out).push(x));
            }
        }
        i += 1;
    }
    proof {
        assert(rows@.subrange(0, n as int) =~= rows@);
    }
    out
}

} // verus!
