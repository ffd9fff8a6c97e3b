//! The report as text: plain, as markdown tables, or as a data block for
//! a plotting tool.
//!
//! Rendering is a function from the finished matrices and the core list
//! to text. Nothing of it reaches back into the measurement.

use vstd::prelude::*;
use crate::builder::LatencyReport;
use crate::matrix::LatencyMatrix;
use crate::options::Opt;
use crate::text::{decimal, push_decimal_right, right_aligned};

verus! {

/// Opens the plotting tool's title.
pub const PLOT_TITLE_OPEN: &'static str =
    "set title \"Inter-core one-way data latency between CPU cores [";

/// Closes the plotting tool's title.
pub const PLOT_TITLE_CLOSE: &'static str = "]\"\n";

/// Labels the plot's axes and opens its data block.
pub const PLOT_AXES: &'static str =
    "set x2label \"CPU\"          \nset ylabel \"CPU\"           \nset cblabel \"Latency (ns)\" \n$data << EOD                 \n";

/// Closes the data block and plots it.
pub const PLOT_DATA_CLOSE: &'static str =
    "EOD\nplot '$data' matrix rowheaders columnheaders using 2:1:3 with image, '' matrix rowheaders columnheaders using 2:1:( sprintf(\"%g\",$3) ) with labels \n";

/// Sets the plotting tool up for two plots, one below the other.
pub const PLOT_SETUP: &'static str =
    "reset                                       \nunset key                                   \nset auto noextend                           \nset autoscale fix                           \nset multiplot layout 2,1                    \nset palette defined (0 'white', 1 'orange') \n";

/// Ends the pair of plots.
pub const PLOT_END: &'static str = "unset multiplot\n";

/// The heading of a markdown section.
pub const MD_HEADING: &'static str = "#### ";

/// What ends a cell of a markdown table.
pub const MD_CELL_END: &'static str = " |";

/// The cell of the rule under a markdown table's header.
pub const MD_RULE_CELL: &'static str = " --: | ";

/// The header of the column of the rows' core numbers.
pub const CORNER: &'static str = " CPU";

/// What follows a title.
pub const TITLE_UNIT: &'static str = " (ns)]";

/// Width of a column of latencies.
pub const COLUMN_WIDTH: usize = 5;

/// Width of the column of the rows' core numbers.
pub const ROW_LABEL_WIDTH: usize = 4;

/// What ends a cell: a bar in a markdown table, nothing otherwise.
pub open spec fn cell_end(md: bool) -> Seq<char> {
    if md {
        MD_CELL_END@
    } else {
        Seq::empty()
    }
}

/// The first `upto` values of a row, each at the right edge of its
/// column.
pub open spec fn cells(values: Seq<int>, upto: int, md: bool) -> Seq<char>
    decreases upto,
{
    if upto <= 0 {
        Seq::empty()
    } else {
        cells(values, upto - 1, md) + right_aligned(decimal(values[upto - 1]), COLUMN_WIDTH as int)
            + cell_end(md)
    }
}

/// The rule under the header of a markdown table: one cell for the
/// rows' core numbers and `columns` more.
pub open spec fn rule(columns: int) -> Seq<char>
    decreases columns,
{
    if columns <= 0 {
        MD_RULE_CELL@
    } else {
        rule(columns - 1) + MD_RULE_CELL@
    }
}

/// The latencies of a row as numbers.
pub open spec fn latencies_of(row: Seq<u128>) -> Seq<int> {
    row.map_values(|v: u128| v as int)
}

/// The cores of a list as numbers.
pub open spec fn numbers_of(cores: Seq<usize>) -> Seq<int> {
    cores.map_values(|c: usize| c as int)
}

/// The first `upto` rows of the table: the number of the row's core,
/// then the row's latencies.
pub open spec fn rows(m: Seq<Seq<u128>>, cores: Seq<usize>, upto: int, md: bool) -> Seq<char>
    decreases upto,
{
    if upto <= 0 {
        Seq::empty()
    } else {
        rows(m, cores, upto - 1, md) + right_aligned(
            decimal(cores[upto - 1] as int),
            ROW_LABEL_WIDTH as int,
        ) + cell_end(md) + cells(latencies_of(m[upto - 1]), m.len() as int, md) + seq!['\n']
    }
}

/// What stands above a table: the plot's title, axes and the opening of
/// its data block, or an empty line and the title, as a heading where
/// the tables are markdown.
pub open spec fn heading(title: Seq<char>, opt: Opt) -> Seq<char> {
    if opt.plot {
        PLOT_TITLE_OPEN@ + title + PLOT_TITLE_CLOSE@ + PLOT_AXES@
    } else {
        seq!['\n'] + (if opt.md {
            MD_HEADING@
        } else {
            Seq::empty()
        }) + seq!['['] + title + TITLE_UNIT@ + seq!['\n']
    }
}

/// What stands above the rows of a table: the heading, the row of core
/// numbers, and the rule where the table is markdown.
pub open spec fn head_text(title: Seq<char>, cores: Seq<usize>, opt: Opt) -> Seq<char> {
    heading(title, opt) + CORNER@ + cell_end(opt.md) + cells(
        numbers_of(cores),
        cores.len() as int,
        opt.md,
    ) + seq!['\n'] + (if opt.md {
        rule(cores.len() as int) + seq!['\n']
    } else {
        Seq::empty()
    })
}

/// What stands below the rows of a table: the closing of the plot's data
/// block where there is one, and an empty line.
pub open spec fn tail_text(opt: Opt) -> Seq<char> {
    (if opt.plot {
        PLOT_DATA_CLOSE@
    } else {
        Seq::empty()
    }) + seq!['\n']
}

/// One matrix as text: what stands above the rows, the rows, and what
/// stands below them.
pub open spec fn matrix_text(
    title: Seq<char>,
    m: Seq<Seq<u128>>,
    cores: Seq<usize>,
    opt: Opt,
) -> Seq<char> {
    head_text(title, cores, opt) + rows(m, cores, m.len() as int, opt.md) + tail_text(opt)
}

/// The whole report as text: the minimum matrix, then the average
/// matrix, between the plotting tool's setup and end where a plot was
/// asked for.
pub open spec fn report_text(
    cores: Seq<usize>,
    min: Seq<Seq<u128>>,
    avg: Seq<Seq<u128>>,
    opt: Opt,
) -> Seq<char> {
    (if opt.plot {
        PLOT_SETUP@
    } else {
        Seq::empty()
    }) + matrix_text("min"@, min, cores, opt) + matrix_text("avg"@, avg, cores, opt) + (
    if opt.plot {
        PLOT_END@
    } else {
        Seq::empty()
    })
}

fn push_cell_end(out: &mut String, md: bool)
    ensures
        final(out)@ == old(out)@ + cell_end(md),
{
    if md {
        out.append(MD_CELL_END);
    }
}

fn push_core_cells(out: &mut String, cores: &Vec<usize>, md: bool)
    ensures
        final(out)@ == old(out)@ + cells(numbers_of(cores@), cores.len() as int, md),
{
    let ghost values = numbers_of(cores@);
    let mut k: usize = 0;
    while k < cores.len()
        invariant
            k <= cores.len(),
            values == numbers_of(cores@),
            out@ == old(out)@ + cells(values, k as int, md),
        decreases cores.len() - k,
    {
        push_decimal_right(out, cores[k] as u128, COLUMN_WIDTH);
        push_cell_end(out, md);
        k += 1;
    }
}

fn push_latency_cells(out: &mut String, m: &LatencyMatrix, row: usize, md: bool)
    requires
        m.wf(),
        row < m@.len(),
    ensures
        final(out)@ == old(out)@ + cells(latencies_of(m@[row as int]), m@.len() as int, md),
{
    let ghost values = latencies_of(m@[row as int]);
    let n = m.dimension();
    let mut k: usize = 0;
    while k < n
        invariant
            k <= n,
            n == m@.len(),
            row < n,
            m.wf(),
            values == latencies_of(m@[row as int]),
            m@[row as int].len() == n,
            out@ == old(out)@ + cells(values, k as int, md),
        decreases n - k,
    {
        push_decimal_right(out, m.get(row, k), COLUMN_WIDTH);
        push_cell_end(out, md);
        k += 1;
    }
}

fn push_rule(out: &mut String, columns: usize)
    ensures
        final(out)@ == old(out)@ + rule(columns as int),
{
    out.append(MD_RULE_CELL);
    let mut k: usize = 0;
    while k < columns
        invariant
            k <= columns,
            out@ == old(out)@ + rule(k as int),
        decreases columns - k,
    {
        out.append(MD_RULE_CELL);
        k += 1;
    }
}

fn push_rows(out: &mut String, m: &LatencyMatrix, cores: &Vec<usize>, md: bool)
    requires
        m.wf(),
        cores@.len() == m@.len(),
    ensures
        final(out)@ == old(out)@ + rows(m@, cores@, m@.len() as int, md),
{
    let n = m.dimension();
    let mut i: usize = 0;
    while i < n
        invariant
            i <= n,
            n == m@.len(),
            cores@.len() == n,
            m.wf(),
            out@ == old(out)@ + rows(m@, cores@, i as int, md),
        decreases n - i,
    {
        push_decimal_right(out, cores[i] as u128, ROW_LABEL_WIDTH);
        push_cell_end(out, md);
        push_latency_cells(out, m, i, md);
        out.push('\n');
        i += 1;
    }
}

fn push_heading(out: &mut String, title: &str, opt: &Opt)
    ensures
        final(out)@ == old(out)@ + heading(title@, *opt),
{
    if opt.plot {
        out.append(PLOT_TITLE_OPEN);
        out.append(title);
        out.append(PLOT_TITLE_CLOSE);
        out.append(PLOT_AXES);
    } else {
        out.push('\n');
        if opt.md {
            out.append(MD_HEADING);
        }
        out.push('[');
        out.append(title);
        out.append(TITLE_UNIT);
        out.push('\n');
    }
}

fn push_head(out: &mut String, title: &str, cpu_list: &Vec<usize>, opt: &Opt)
    ensures
        final(out)@ == old(out)@ + head_text(title@, cpu_list@, *opt),
{
    push_heading(out, title, opt);
    out.append(CORNER);
    push_cell_end(out, opt.md);
    push_core_cells(out, cpu_list, opt.md);
    out.push('\n');
    assert(out@ =~= old(out)@ + (heading(title@, *opt) + CORNER@ + cell_end(opt.md) + cells(
        numbers_of(cpu_list@),
        cpu_list.len() as int,
        opt.md,
    ) + seq!['\n']));
    if opt.md {
        push_rule(out, cpu_list.len());
        out.push('\n');
    }
}

fn push_tail(out: &mut String, opt: &Opt)
    ensures
        final(out)@ == old(out)@ + tail_text(*opt),
{
    if opt.plot {
        out.append(PLOT_DATA_CLOSE);
    }
    out.push('\n');
}

/// Appends one matrix as text.
pub fn push_matrix(
    out: &mut String,
    title: &str,
    result: &LatencyMatrix,
    cpu_list: &Vec<usize>,
    opt: &Opt,
)
    requires
        result.wf(),
        cpu_list@.len() == result@.len(),
    ensures
        final(out)@ == old(out)@ + matrix_text(title@, result@, cpu_list@, *opt),
{
    push_head(out, title, cpu_list, opt);
    push_rows(out, result, cpu_list, opt.md);
    push_tail(out, opt);
}

/// One matrix as text, under the given title and with the given cores
/// over its columns and in front of its rows.
pub fn print_matrix(title: &str, result: &LatencyMatrix, cpu_list: &Vec<usize>, opt: &Opt) -> (text:
    String)
    requires
        result.wf(),
        cpu_list@.len() == result@.len(),
    ensures
        text@ == matrix_text(title@, result@, cpu_list@, *opt),
{
    let mut text = String::new();
    push_matrix(&mut text, title, result, cpu_list, opt);
    text
}

/// The whole report as text.
pub fn render(report: &LatencyReport, opt: &Opt) -> (text: String)
    requires
        report.wf(),
    ensures
        text@ == report_text(report@.cores, report@.min, report@.avg, *opt),
{
    let mut text = String::new();
    if opt.plot {
        text.append(PLOT_SETUP);
    }
    push_matrix(&mut text, "min", report.min(), report.cores(), opt);
    push_matrix(&mut text, "avg", report.avg(), report.cores(), opt);
    if opt.plot {
        text.append(PLOT_END);
    }
    text
}

} // verus!
