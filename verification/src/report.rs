//! Report rendering: fixed-width padding, the configuration table the sweep
//! prints before any run, and the cell texts of the final manifest table.
//! The I/O boundary only prints what these functions return.

use vstd::prelude::*;
use vstd::string::*;

use crate::manifest::ManifestEntry;
use crate::manifest::outcome_text;
use crate::permutation::param_views;
use crate::text::u64_digits;
use crate::text::u64_to_string;
use crate::text::views_of;
use crate::types::ExperimentParamsModel;
use crate::types::MscclExperimentParams;

verus! {

/// `n` spaces.
pub open spec fn spaces(n: nat) -> Seq<char>
    decreases n,
{
    if n == 0 {
        Seq::empty()
    } else {
        spaces((n - 1) as nat).push(' ')
    }
}

/// Left-aligned padding to width `w`; text wider than `w` is kept whole.
pub open spec fn pad_right_spec(s: Seq<char>, w: nat) -> Seq<char> {
    if s.len() >= w {
        s
    } else {
        s + spaces((w - s.len()) as nat)
    }
}

/// Right-aligned padding to width `w`.
pub open spec fn pad_left_spec(s: Seq<char>, w: nat) -> Seq<char> {
    if s.len() >= w {
        s
    } else {
        spaces((w - s.len()) as nat) + s
    }
}

/// Centered padding to width `w`, with the extra space on the right when the
/// slack is odd.
pub open spec fn pad_center_spec(s: Seq<char>, w: nat) -> Seq<char> {
    if s.len() >= w {
        s
    } else {
        let total = (w - s.len()) as nat;
        spaces(total / 2) + s + spaces((total - total / 2) as nat)
    }
}

/// A string of `n` spaces.
#[verifier::loop_isolation(false)]
pub fn n_spaces(n: usize) -> (s: String)
    ensures
        s@ == spaces(n as nat),
{
    let mut s = String::new();
    let mut i: usize = 0;
    proof {
        reveal_strlit(" ");
    }
    while i < n
        invariant
            i <= n,
            s@ == spaces(i as nat),
        decreases n - i,
    {
        s.append(" ");
        proof {
            assert(s@ =~= spaces(i as nat).push(' '));
        }
        i += 1;
    }
    s
}

/// Pads `s` on the right with spaces to width `w`.
pub fn pad_right(s: &str, w: usize) -> (r: String)
    ensures
        r@ == pad_right_spec(s@, w as nat),
{
    let len = s.unicode_len();
    let mut r = String::from_str(s);
    if len < w {
        r.append(n_spaces(w - len).as_str());
    }
    r
}

/// Pads `s` on the left with spaces to width `w`.
pub fn pad_left(s: &str, w: usize) -> (r: String)
    ensures
        r@ == pad_left_spec(s@, w as nat),
{
    let len = s.unicode_len();
    if len < w {
        let mut r = n_spaces(w - len);
        r.append(s);
        r
    } else {
        String::from_str(s)
    }
}

/// Pads `s` on both sides with spaces to width `w`, extra space on the
/// right.
pub fn pad_center(s: &str, w: usize) -> (r: String)
    ensures
        r@ == pad_center_spec(s@, w as nat),
{
    let len = s.unicode_len();
    if len < w {
        let total = w - len;
        let left = total / 2;
        let mut r = n_spaces(left);
        r.append(s);
        r.append(n_spaces(total - left).as_str());
        r
    } else {
        String::from_str(s)
    }
}

/// One body row of the configuration table.
pub open spec fn config_row_line_spec(d: ExperimentParamsModel) -> Seq<char> {
    "| collective: "@ + pad_right_spec(d.nc_collective, 14) + " | op: "@ + pad_center_spec(
        d.nc_op,
        4,
    ) + " | dtype: "@ + pad_center_spec(d.nc_dtype, 6) + " | algorithm: "@ + pad_center_spec(
        d.algorithm,
        26,
    ) + " | channels: "@ + pad_left_spec(u64_digits(d.ms_channels as nat), 2) + " | chunks: "@
        + pad_left_spec(u64_digits(d.ms_chunks as nat), 4) + " |"@
}

/// The lines the configuration rows contribute, from row `i` on: each row's
/// line, followed by a divider, or by the closing border after the last row.
pub open spec fn config_lines_from(ds: Seq<ExperimentParamsModel>, i: int) -> Seq<Seq<char>>
    decreases ds.len() - i,
    when 0 <= i <= ds.len()
{
    if i >= ds.len() {
        Seq::empty()
    } else {
        seq![
            config_row_line_spec(ds[i]),
            if i == ds.len() - 1 {
                "|-----------------------------------------------------------------------------------------------------------------------------|"@
            } else {
                "|----------------------------+----------+---------------+---------------------------------------+--------------+--------------|"@
            },
        ] + config_lines_from(ds, i + 1)
    }
}

/// The whole configuration table: the top border, the title row, a divider,
/// then the rows.
pub open spec fn config_table_spec(ds: Seq<ExperimentParamsModel>) -> Seq<Seq<char>> {
    seq![
        "|----------------------------+------------------------------------------------------------------------------------------------|"@,
        "|         collective         |    op    |     dtype     |              algorithm:               |   channels   |    chunks    |"@,
        "|----------------------------+----------+---------------+---------------------------------------+--------------+--------------|"@,
    ] + config_lines_from(ds, 0)
}

/// Renders one body row of the configuration table.
pub fn config_row_line(d: &MscclExperimentParams) -> (s: String)
    ensures
        s@ == config_row_line_spec(d@),
{
    let mut s = String::from_str("| collective: ");
    s.append(pad_right(d.nc_collective.as_str(), 14).as_str());
    s.append(" | op: ");
    s.append(pad_center(d.nc_op.as_str(), 4).as_str());
    s.append(" | dtype: ");
    s.append(pad_center(d.nc_dtype.as_str(), 6).as_str());
    s.append(" | algorithm: ");
    s.append(pad_center(d.algorithm.as_str(), 26).as_str());
    s.append(" | channels: ");
    s.append(pad_left(u64_to_string(d.ms_channels).as_str(), 2).as_str());
    s.append(" | chunks: ");
    s.append(pad_left(u64_to_string(d.ms_chunks).as_str(), 4).as_str());
    s.append(" |");
    proof {
        assert(s@ =~= config_row_line_spec(d@));
    }
    s
}

/// Renders the configuration table, line by line, for the generated sweep.
#[verifier::loop_isolation(false)]
pub fn config_table_lines(configs: &Vec<MscclExperimentParams>) -> (lines: Vec<String>)
    ensures
        views_of(lines@) == config_table_spec(param_views(configs@)),
{
    let ghost ds = param_views(configs@);
    let mut lines: Vec<String> = Vec::new();
    lines.push(
        String::from_str(
            "|----------------------------+------------------------------------------------------------------------------------------------|",
        ),
    );
    lines.push(
        String::from_str(
            "|         collective         |    op    |     dtype     |              algorithm:               |   channels   |    chunks    |",
        ),
    );
    lines.push(
        String::from_str(
            "|----------------------------+----------+---------------+---------------------------------------+--------------+--------------|",
        ),
    );
    let ghost header = views_of(lines@);
    proof {
        assert(header =~= config_table_spec(ds).subrange(0, 3));
        assert(config_table_spec(ds) =~= header + config_lines_from(ds, 0));
    }
    let mut i: usize = 0;
    while i < configs.len()
        invariant
            i <= configs.len(),
            config_table_spec(ds) == views_of(lines@) + config_lines_from(ds, i as int),
        decreases configs.len() - i,
    {
        let ghost pre = lines@;
        lines.push(config_row_line(&configs[i]));
        if i + 1 == configs.len() {
            lines.push(
                String::from_str(
                    "|-----------------------------------------------------------------------------------------------------------------------------|",
                ),
            );
        } else {
            lines.push(
                String::from_str(
                    "|----------------------------+----------+---------------+---------------------------------------+--------------+--------------|",
                ),
            );
        }
        proof {
            assert(ds[i as int] == configs@[i as int]@);
            assert(views_of(lines@) =~= views_of(pre) + seq![
                config_row_line_spec(ds[i as int]),
                if i as int == ds.len() - 1 {
                    "|-----------------------------------------------------------------------------------------------------------------------------|"@
                } else {
                    "|----------------------------+----------+---------------+---------------------------------------+--------------+--------------|"@
                },
            ]);
            assert(views_of(pre) + (seq![
                config_row_line_spec(ds[i as int]),
                if i as int == ds.len() - 1 {
                    "|-----------------------------------------------------------------------------------------------------------------------------|"@
                } else {
                    "|----------------------------+----------+---------------+---------------------------------------+--------------+--------------|"@
                },
            ] + config_lines_from(ds, i as int + 1)) =~= views_of(lines@) + config_lines_from(
                ds,
                i as int + 1,
            ));
        }
        i += 1;
    }
    lines
}

/// The cell texts of one manifest-table row, in column order: the
/// identifying parameters, then the outcome label.
pub open spec fn manifest_cells_spec(e: crate::manifest::ManifestEntryModel) -> Seq<Seq<char>> {
    seq![
        e.collective,
        e.op,
        e.dtype,
        e.algorithm,
        u64_digits(e.num_channels as nat),
        u64_digits(e.num_chunks as nat),
        u64_digits(e.num_gpus as nat),
        u64_digits(e.buffer_size_factor as nat),
        outcome_text(e.overall_result),
    ]
}

/// Renders the cell texts of one manifest-table row.
pub fn manifest_entry_cells(e: &ManifestEntry) -> (cells: Vec<String>)
    ensures
        views_of(cells@) == manifest_cells_spec(e@),
{
    let mut cells: Vec<String> = Vec::new();
    cells.push(e.collective.clone());
    cells.push(e.op.clone());
    cells.push(e.dtype.clone());
    cells.push(e.algorithm.clone());
    cells.push(u64_to_string(e.num_channels));
    cells.push(u64_to_string(e.num_chunks));
    cells.push(u64_to_string(e.num_gpus));
    cells.push(u64_to_string(e.buffer_size_factor));
    cells.push(e.overall_result.describe());
    proof {
        assert(views_of(cells@) =~= manifest_cells_spec(e@));
    }
    cells
}

/// The title cells of the manifest table.
pub open spec fn manifest_header_spec() -> Seq<Seq<char>> {
    seq![
        "Collective"@,
        "Op"@,
        "DType"@,
        "Algorithm"@,
        "Num Channels"@,
        "Num Chunks"@,
        "Num GPUs"@,
        "Buffer Size Factor"@,
        "Overall Result"@,
    ]
}

/// Renders the title cells of the manifest table.
pub fn manifest_header_cells() -> (cells: Vec<String>)
    ensures
        views_of(cells@) == manifest_header_spec(),
{
    let mut cells: Vec<String> = Vec::new();
    cells.push(String::from_str("Collective"));
    cells.push(String::from_str("Op"));
    cells.push(String::from_str("DType"));
    cells.push(String::from_str("Algorithm"));
    cells.push(String::from_str("Num Channels"));
    cells.push(String::from_str("Num Chunks"));
    cells.push(String::from_str("Num GPUs"));
    cells.push(String::from_str("Buffer Size Factor"));
    cells.push(String::from_str("Overall Result"));
    proof {
        assert(views_of(cells@) =~= manifest_header_spec());
    }
    cells
}

} // verus!
