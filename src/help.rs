//! The help page: key bindings and what they do, padded into two columns.
//!
//! Column widths count display cells: an ASCII character takes one cell,
//! any other character two.
use crate::chars::{chars_of, string_from_chars};
use vstd::prelude::*;

verus! {

pub open spec fn char_width(c: char) -> int {
    if c as u32 <= 0x7f {
        1
    } else {
        2
    }
}

/// The number of display cells that `s` takes.
pub open spec fn width(s: Seq<char>) -> int
    decreases s.len(),
{
    if s.len() == 0 {
        0
    } else {
        width(s.drop_last()) + char_width(s.last())
    }
}

/// The widest of the first (`first`) or second column of `rows`.
pub open spec fn column_width(rows: Seq<(Seq<char>, Seq<char>)>, first: bool) -> int
    decreases rows.len(),
{
    if rows.len() == 0 {
        0
    } else {
        let w = column_width(rows.drop_last(), first);
        let c = if first {
            width(rows.last().0)
        } else {
            width(rows.last().1)
        };
        if c > w {
            c
        } else {
            w
        }
    }
}

/// `s` followed by spaces up to `w` cells.
pub open spec fn padded(s: Seq<char>, w: int) -> Seq<char> {
    s + Seq::new((w - width(s)) as nat, |_i: int| ' ')
}

/// Each row with both cells padded to the width of their column.
pub open spec fn format_spec(rows: Seq<(Seq<char>, Seq<char>)>) -> Seq<(Seq<char>, Seq<char>)> {
    rows.map_values(
        |r: (Seq<char>, Seq<char>)|
            (padded(r.0, column_width(rows, true)), padded(r.1, column_width(rows, false))),
    )
}

pub open spec fn rows_view(v: Seq<(String, String)>) -> Seq<(Seq<char>, Seq<char>)> {
    v.map_values(|r: (String, String)| (r.0@, r.1@))
}

/// The rows of the help page before padding.
pub open spec fn help_table() -> Seq<(Seq<char>, Seq<char>)> {
    seq![
        ("\n● 模式/播放"@, "\n"@),
        ("h"@, "进入帮助页面"@),
        ("[p, space]"@, "播放/暂停"@),
        ("t"@, "切换语言(默认双语字幕, 每次切换至中文/日语/双语)"@),
        ("q"@, "关闭应用"@),
        ("\n\n● 模式/帮助"@, "\n"@),
        ("h"@, "退出帮助页面"@),
        ("\n\n● 模式/退出"@, "\n"@),
        ("y"@, "确认"@),
        ("n"@, "取消"@),
    ]
}

proof fn lemma_width_bounds(s: Seq<char>)
    ensures
        0 <= width(s) <= 2 * s.len(),
    decreases s.len(),
{
    if s.len() > 0 {
        lemma_width_bounds(s.drop_last());
    }
}

proof fn lemma_column_width_ge(rows: Seq<(Seq<char>, Seq<char>)>, first: bool, i: int)
    requires
        0 <= i < rows.len(),
    ensures
        column_width(rows, first) >= (if first {
            width(rows[i].0)
        } else {
            width(rows[i].1)
        }),
    decreases rows.len(),
{
    if i < rows.len() - 1 {
        lemma_column_width_ge(rows.drop_last(), first, i);
    }
}

/// The number of display cells that `s` takes.
pub fn display_width(s: &str) -> (r: u128)
    ensures
        r == width(s@),
{
    let cs = chars_of(s);
    let mut w: u128 = 0;
    let mut i: usize = 0;
    while i < cs.len()
        invariant
            i <= cs@.len(),
            cs@ == s@,
            w == width(cs@.take(i as int)),
        decreases cs.len() - i,
    {
        proof {
            lemma_width_bounds(cs@.take(i as int));
            assert(cs@.take(i + 1).drop_last() =~= cs@.take(i as int));
        }
        w = w + if (cs[i] as u32) <= 0x7f {
            1
        } else {
            2
        };
        i = i + 1;
    }
    assert(cs@.take(i as int) =~= cs@);
    w
}

/// `s` followed by spaces up to `w` cells; `s` takes no more than `w`.
pub fn pad_to(s: &str, w: u128) -> (r: String)
    requires
        width(s@) <= w,
    ensures
        r@ == padded(s@, w as int),
{
    let n = w - display_width(s);
    let mut cs = chars_of(s);
    let ghost base = cs@;
    let mut k: u128 = 0;
    while k < n
        invariant
            k <= n,
            n == w - width(s@),
            base == s@,
            cs@ == base + Seq::new(k as nat, |_i: int| ' '),
        decreases n - k,
    {
        cs.push(' ');
        k = k + 1;
        assert(cs@ =~= base + Seq::new(k as nat, |_i: int| ' '));
    }
    string_from_chars(cs.as_slice(), 0, cs.len())
}

/// The widest cell of the first (`first`) or second column of `rows`.
fn column_width_of(rows: &Vec<(String, String)>, first: bool) -> (r: u128)
    ensures
        r == column_width(rows_view(rows@), first),
{
    let ghost rv = rows_view(rows@);
    let mut best: u128 = 0;
    let mut i: usize = 0;
    while i < rows.len()
        invariant
            i <= rows@.len(),
            rv == rows_view(rows@),
            rv.len() == rows@.len(),
            best == column_width(rv.take(i as int), first),
        decreases rows.len() - i,
    {
        let c = if first {
            display_width(rows[i].0.as_str())
        } else {
            display_width(rows[i].1.as_str())
        };
        proof {
            assert(rv.take(i + 1).drop_last() =~= rv.take(i as int));
            assert(rv[i as int] == (rows@[i as int].0@, rows@[i as int].1@));
        }
        if c > best {
            best = c;
        }
        i = i + 1;
    }
    assert(rv.take(i as int) =~= rv);
    best
}

/// Pads every cell to the width of its column.
pub fn format_help(rows: &Vec<(String, String)>) -> (r: Vec<(String, String)>)
    ensures
        rows_view(r@) == format_spec(rows_view(rows@)),
{
    let ghost rv = rows_view(rows@);
    let kw = column_width_of(rows, true);
    let dw = column_width_of(rows, false);
    let mut out: Vec<(String, String)> = Vec::new();
    let mut i: usize = 0;
    while i < rows.len()
        invariant
            i <= rows@.len(),
            rv == rows_view(rows@),
            rv.len() == rows@.len(),
            kw == column_width(rv, true),
            dw == column_width(rv, false),
            out@.len() == i,
            rows_view(out@) == format_spec(rv).take(i as int),
        decreases rows.len() - i,
    {
        proof {
            lemma_column_width_ge(rv, true, i as int);
            lemma_column_width_ge(rv, false, i as int);
            assert(rv[i as int] == (rows@[i as int].0@, rows@[i as int].1@));
        }
        let k = pad_to(rows[i].0.as_str(), kw);
        let d = pad_to(rows[i].1.as_str(), dw);
        let ghost prev = out@;
        out.push((k, d));
        proof {
            assert(format_spec(rv)[i as int] == (k@, d@));
            assert forall|j: int| 0 <= j < i implies #[trigger] rows_view(out@)[j] == rows_view(
                prev,
            )[j] by {
                assert(out@[j] == prev[j]);
            }
            assert(rows_view(out@)[i as int] == (k@, d@));
        }
        i = i + 1;
        assert(rows_view(out@) =~= format_spec(rv).take(i as int));
    }
    assert(format_spec(rv).take(i as int) =~= format_spec(rv));
    out
}

/// The help page: each key binding and what it does, in two padded columns.
pub fn get_help_text() -> (r: Vec<(String, String)>)
    ensures
        rows_view(r@) == format_spec(help_table()),
{
    let mut rows: Vec<(String, String)> = Vec::new();
    rows.push(("\n● 模式/播放".to_owned(), "\n".to_owned()));
    rows.push(("h".to_owned(), "进入帮助页面".to_owned()));
    rows.push(("[p, space]".to_owned(), "播放/暂停".to_owned()));
    rows.push(("t".to_owned(), "切换语言(默认双语字幕, 每次切换至中文/日语/双语)".to_owned()));
    rows.push(("q".to_owned(), "关闭应用".to_owned()));
    rows.push(("\n\n● 模式/帮助".to_owned(), "\n".to_owned()));
    rows.push(("h".to_owned(), "退出帮助页面".to_owned()));
    rows.push(("\n\n● 模式/退出".to_owned(), "\n".to_owned()));
    rows.push(("y".to_owned(), "确认".to_owned()));
    rows.push(("n".to_owned(), "取消".to_owned()));
    assert(rows_view(rows@) =~= help_table());
    format_help(&rows)
}

} // verus!
