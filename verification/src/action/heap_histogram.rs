//! The heap-histogram action of the newer action set.
//!
//! The census rows, already ordered by descending byte total, are
//! truncated to the configured number of entries (zero meaning
//! unlimited), their tags resolved to demangled class names, and the
//! result printed as a three-column table.

use vstd::prelude::*;

use crate::err::Error;
use crate::err::spec_error_message;
use crate::heap::class_formatter::ClassFormatter;
use crate::heap::class_formatter::spec_demangle;
use crate::heap::contents::Contents;
use crate::heap::contents::Statistics;
use crate::heap::stats::Row;
use crate::heap::stats::RowView;
use crate::heap::stats::spec_keep;
use crate::heap::stats::spec_name_width;
use crate::heap::stats::spec_row_view;
use crate::heap::types::Types;
use crate::output::LineView;
use crate::output::OutputLine;
use crate::output::spec_lines;
use crate::text::spec_idec;
use crate::text::spec_pad_right;
use crate::text::spec_spaces;
use crate::text::spec_udec;
use crate::text::idec;
use crate::text::pad_right;
use crate::text::spaces;
use crate::text::udec;

verus! {

/// `n` dashes.
pub open spec fn spec_dashes(n: nat) -> Seq<char>
    decreases n,
{
    if n == 0 {
        Seq::<char>::empty()
    } else {
        spec_dashes((n - 1) as nat).push('-')
    }
}

/// A string of `n` dashes.
fn dashes(n: usize) -> (r: String)
    ensures
        r@ == spec_dashes(n as nat),
{
    let mut r = String::new();
    let mut i: usize = 0;
    while i < n
        invariant
            i <= n,
            r@ == spec_dashes(i as nat),
        decreases n - i,
    {
        r.append("-");
        proof {
            reveal_strlit("-");
            assert(r@ == spec_dashes(i as nat) + seq!['-']);
            assert(spec_dashes(i as nat).push('-') =~= spec_dashes(i as nat) + seq!['-']);
        }
        i = i + 1;
    }
    r
}

/// The census rows resolved to named rows, in order; or the first
/// failure: a tag without a recorded signature, or a signature outside
/// the grammar, each as its reported message.
pub open spec fn spec_format_rows(sigs: Seq<Seq<char>>, rows: Seq<Statistics>) -> Result<
    Seq<RowView>,
    Seq<char>,
>
    decreases rows.len(),
{
    if rows.len() == 0 {
        Ok(Seq::<RowView>::empty())
    } else {
        let s = rows[0];
        if !(0 <= s.tag < sigs.len()) {
            Err("invalid class tag: "@ + spec_idec(s.tag as int) + ": parse error"@)
        } else {
            match spec_demangle(sigs[s.tag as int]) {
                None => Err("invalid class name: "@ + sigs[s.tag as int] + ": parse error"@),
                Some(name) => match spec_format_rows(sigs, rows.subrange(1, rows.len() as int)) {
                    Ok(t) => Ok(
                        seq![(name, s.count as int, s.total_size as int)] + t,
                    ),
                    Err(e) => Err(e),
                },
            }
        }
    }
}

/// One row of the histogram table.
pub open spec fn spec_histogram_row(r: RowView, width: int) -> Seq<char> {
    "| "@ + spec_pad_right(spec_udec(r.1 as nat), 14) + " | "@ + spec_pad_right(spec_idec(r.2), 11)
        + " | "@ + spec_pad_right(r.0, width as nat) + " |\n"@
}

/// The histogram's printed lines for a run of named rows: the banner,
/// the two header lines, then a line per row.
pub open spec fn spec_histogram_lines(rows: Seq<RowView>) -> Seq<LineView> {
    let width = spec_name_width(rows);
    seq![
        LineView::Stdout("\n>>> Heap Histogram\n"@),
        LineView::Stdout(
            "| Instance Count | Total Bytes | Class Name"@ + spec_spaces((width - 10) as nat)
                + " |\n"@,
        ),
        LineView::Stdout("| -------------- | ----------- | "@ + spec_dashes(width as nat) + " |\n"@),
    ] + rows.map_values(|r: RowView| LineView::Stdout(spec_histogram_row(r, width)))
}

/// The heap-histogram action, configured with its truncation.
pub struct HeapHistogram {
    pub max_entries: usize,
}

impl HeapHistogram {
    pub fn new(max_entries: usize) -> (r: HeapHistogram)
        ensures
            r.max_entries == max_entries,
    {
        HeapHistogram { max_entries }
    }

    /// Prints the histogram from the tagged classes and the ordered
    /// census, or reports the first row whose class cannot be named.
    pub fn execute(&self, types: &Types, contents: &Contents) -> (r: Result<Vec<OutputLine>, Error>)
        ensures
            ({
                let kept = contents.ordered().subrange(
                    0,
                    spec_keep(contents.ordered().len() as int, self.max_entries as int),
                );
                match r {
                    Ok(lines) => (match spec_format_rows(types.sigs(), kept) {
                        Ok(frows) => spec_lines(lines@) == spec_histogram_lines(frows),
                        Err(_) => false,
                    }),
                    Err(e) => (match spec_format_rows(types.sigs(), kept) {
                        Ok(_) => false,
                        Err(m) => spec_error_message(e) == m,
                    }),
                }
            }),
    {
        let limit = if self.max_entries == 0 {
            usize::MAX
        } else {
            self.max_entries
        };
        let stats = contents.get_contents(limit);
        let ghost kept = contents.ordered().subrange(
            0,
            spec_keep(contents.ordered().len() as int, self.max_entries as int),
        );
        proof {
            assert(stats@ =~= kept);
        }
        let f = ClassFormatter::new();
        let mut rows: Vec<Row> = Vec::new();
        let n = stats.len();
        let mut i: usize = 0;
        proof {
            assert(kept.subrange(0, n as int) =~= kept);
            assert(rows@.map_values(|x: Row| spec_row_view(x)) =~= Seq::<RowView>::empty());
        }
        while i < n
            invariant
                i <= n,
                n == stats@.len(),
                stats@ == kept,
                kept == contents.ordered().subrange(
                    0,
                    spec_keep(contents.ordered().len() as int, self.max_entries as int),
                ),
                spec_format_rows(types.sigs(), kept) == (match spec_format_rows(
                    types.sigs(),
                    kept.subrange(i as int, n as int),
                ) {
                    Ok(t) => Ok::<Seq<RowView>, Seq<char>>(
                        rows@.map_values(|x: Row| spec_row_view(x)) + t,
                    ),
                    Err(e) => Err::<Seq<RowView>, Seq<char>>(e),
                }),
            decreases n - i,
        {
            let s = stats[i];
            let ghost rest = kept.subrange(i as int, n as int);
            proof {
                assert(rest[0] == kept[i as int]);
                assert(rest.subrange(1, rest.len() as int) =~= kept.subrange(i + 1, n as int));
            }
            if s.tag < 0 || (s.tag as u64) >= (types.len() as u64) {
                let m = String::from_str("invalid class tag: ");
                proof {
                    assert(!(0 <= s.tag < types.sigs().len()));
                    assert(spec_format_rows(types.sigs(), rest) == Err::<Seq<RowView>, Seq<char>>(
                        "invalid class tag: "@ + spec_idec(s.tag as int) + ": parse error"@,
                    ));
                }
                return Err(Error::Parse(m.concat(idec(s.tag).as_str())));
            }
            proof {
                assert(0 <= s.tag < types.sigs().len());
            }
            let name = match f.format(types.get(s.tag)) {
                Ok(name) => name,
                Err(e) => {
                    proof {
                        assert(spec_format_rows(types.sigs(), rest) == Err::<
                            Seq<RowView>,
                            Seq<char>,
                        >("invalid class name: "@ + types.sigs()[s.tag as int]
                            + ": parse error"@));
                    }
                    return Err(e);
                },
            };
            let ghost prev = rows@;
            rows.push((name, s.count, s.total_size));
            proof {
                assert(rows@.subrange(0, rows@.len() - 1) =~= prev);
                let prevrows = prev.map_values(|x: Row| spec_row_view(x));
                let newrows = rows@.map_values(|x: Row| spec_row_view(x));
                let row_i = spec_row_view(rows@.last());
                assert(newrows =~= prevrows.push(row_i));
                assert(row_i == (name@, s.count as int, s.total_size as int));
                assert(spec_demangle(types.sigs()[s.tag as int]) == Some(name@));
                let tailr = spec_format_rows(types.sigs(), kept.subrange(i + 1, n as int));
                assert(spec_format_rows(types.sigs(), rest) == (match tailr {
                    Ok(t2) => Ok::<Seq<RowView>, Seq<char>>(seq![row_i] + t2),
                    Err(e) => Err::<Seq<RowView>, Seq<char>>(e),
                }));
                if tailr is Ok {
                    assert(prevrows.push(row_i) + tailr->Ok_0 =~= prevrows + (seq![row_i]
                        + tailr->Ok_0));
                }
            }
            i = i + 1;
        }
        proof {
            assert(kept.subrange(n as int, n as int) =~= Seq::<Statistics>::empty());
            assert(spec_format_rows(types.sigs(), kept) == Ok::<Seq<RowView>, Seq<char>>(
                rows@.map_values(|x: Row| spec_row_view(x)),
            ));
        }
        let ghost frows = rows@.map_values(|x: Row| spec_row_view(x));
        let mut width: usize = 10;
        let mut k: usize = 0;
        proof {
            assert(frows.subrange(0, 0) =~= Seq::<RowView>::empty());
        }
        while k < rows.len()
            invariant
                k <= rows@.len(),
                frows == rows@.map_values(|x: Row| spec_row_view(x)),
                width == spec_name_width(frows.subrange(0, k as int)),
                width >= 10,
            decreases rows@.len() - k,
        {
            let len = rows[k].0.as_str().unicode_len();
            proof {
                assert(frows.subrange(0, k + 1).drop_last() =~= frows.subrange(0, k as int));
                assert(frows.subrange(0, k + 1).last() == frows[k as int]);
                assert(frows[k as int].0 == rows@[k as int].0@);
            }
            if len > width {
                width = len;
            }
            k = k + 1;
        }
        proof {
            assert(frows.subrange(0, frows.len() as int) =~= frows);
        }
        let mut lines: Vec<OutputLine> = Vec::new();
        lines.push(OutputLine::Stdout(String::from_str("\n>>> Heap Histogram\n")));
        let mut header = String::from_str("| Instance Count | Total Bytes | Class Name");
        header.append(spaces(width - 10).as_str());
        header.append(" |\n");
        lines.push(OutputLine::Stdout(header));
        let mut rule = String::from_str("| -------------- | ----------- | ");
        rule.append(dashes(width).as_str());
        rule.append(" |\n");
        lines.push(OutputLine::Stdout(rule));
        let ghost head = spec_lines(lines@);
        proof {
            assert(head =~= spec_histogram_lines(frows).subrange(0, 3));
        }
        let mut k2: usize = 0;
        proof {
            assert(spec_lines(lines@) =~= head + frows.subrange(0, 0).map_values(
                |r: RowView| LineView::Stdout(spec_histogram_row(r, width as int)),
            ));
        }
        while k2 < rows.len()
            invariant
                k2 <= rows@.len(),
                frows == rows@.map_values(|x: Row| spec_row_view(x)),
                width >= 10,
                spec_lines(lines@) =~= head + frows.subrange(0, k2 as int).map_values(
                    |r: RowView| LineView::Stdout(spec_histogram_row(r, width as int)),
                ),
            decreases rows@.len() - k2,
        {
            let e = &rows[k2];
            let mut line = String::from_str("| ");
            line.append(pad_right(udec(e.1 as u64).as_str(), 14).as_str());
            line.append(" | ");
            line.append(pad_right(idec(e.2).as_str(), 11).as_str());
            line.append(" | ");
            line.append(pad_right(e.0.as_str(), width).as_str());
            line.append(" |\n");
            lines.push(OutputLine::Stdout(line));
            proof {
                let f2 = |r: RowView| LineView::Stdout(spec_histogram_row(r, width as int));
                assert(spec_lines(lines@) =~= lines@.subrange(0, lines@.len() - 1).map_values(
                    |l: OutputLine| l@,
                ).push(lines@.last()@));
                assert(frows[k2 as int] == spec_row_view(rows@[k2 as int]));
                assert((head + frows.subrange(0, k2 as int).map_values(f2)).push(
                    lines@.last()@,
                ) =~= head + frows.subrange(0, k2 as int).map_values(f2).push(lines@.last()@));
                assert(frows.subrange(0, k2 + 1) =~= frows.subrange(0, k2 as int).push(
                    frows[k2 as int],
                ));
                assert(frows.subrange(0, k2 + 1).map_values(
                    |r: RowView| LineView::Stdout(spec_histogram_row(r, width as int)),
                ) =~= frows.subrange(0, k2 as int).map_values(
                    |r: RowView| LineView::Stdout(spec_histogram_row(r, width as int)),
                ).push(LineView::Stdout(spec_histogram_row(frows[k2 as int], width as int))));
            }
            k2 = k2 + 1;
        }
        proof {
            assert(frows.subrange(0, frows.len() as int) =~= frows);
            assert(spec_lines(lines@) =~= spec_histogram_lines(frows));
        }
        Ok(lines)
    }
}

} // verus!
