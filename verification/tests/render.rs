use c2clat::builder::{assemble, LatencyReport};
use c2clat::options::Opt;
use c2clat::reduce::PairLatency;
use c2clat::render::{print_matrix, push_matrix, render};

fn two_cores() -> LatencyReport {
    assemble(vec![0, 1], &vec![PairLatency::new(12, 15).unwrap()]).unwrap()
}

fn plain() -> Opt {
    Opt::default()
}

fn markdown() -> Opt {
    Opt { md: true, plot: false, nsamples: 1000 }
}

fn plot() -> Opt {
    Opt { md: false, plot: true, nsamples: 1000 }
}

#[test]
fn a_matrix_as_plain_text() {
    let report = two_cores();
    assert_eq!(
        print_matrix("min", report.min(), report.cores(), &plain()),
        "\n[min (ns)]\n CPU    0    1\n   0    0   12\n   1   12    0\n\n"
    );
    assert_eq!(
        print_matrix("avg", report.avg(), report.cores(), &plain()),
        "\n[avg (ns)]\n CPU    0    1\n   0    0   15\n   1   15    0\n\n"
    );
}

#[test]
fn a_matrix_as_a_markdown_table() {
    let report = two_cores();
    assert_eq!(
        print_matrix("min", report.min(), report.cores(), &markdown()),
        "\n#### [min (ns)]\n CPU |    0 |    1 |\n --: |  --: |  --: | \n   0 |    0 |   12 |\n   1 |   12 |    0 |\n\n"
    );
}

#[test]
fn a_matrix_as_a_data_block_for_the_plotting_tool() {
    let report = two_cores();
    let expected = [
        "set title \"Inter-core one-way data latency between CPU cores [min]\"\n",
        "set x2label \"CPU\"          \n",
        "set ylabel \"CPU\"           \n",
        "set cblabel \"Latency (ns)\" \n",
        "$data << EOD                 \n",
        " CPU    0    1\n",
        "   0    0   12\n",
        "   1   12    0\n",
        "EOD\n",
        "plot '$data' matrix rowheaders columnheaders using 2:1:3 with image, ",
        "'' matrix rowheaders columnheaders using 2:1:( sprintf(\"%g\",$3) ) with labels \n",
        "\n",
    ]
    .concat();
    assert_eq!(print_matrix("min", report.min(), report.cores(), &plot()), expected);
}

#[test]
fn a_single_core_labels_its_row_and_its_column() {
    let report = assemble(vec![7], &Vec::new()).unwrap();
    assert_eq!(
        print_matrix("min", report.min(), report.cores(), &plain()),
        "\n[min (ns)]\n CPU    7\n   7    0\n\n"
    );
}

#[test]
fn rows_and_columns_are_labelled_by_core_numbers() {
    let report = assemble(
        vec![4, 17, 130],
        &vec![
            PairLatency::new(1, 1).unwrap(),
            PairLatency::new(22, 22).unwrap(),
            PairLatency::new(333, 333).unwrap(),
        ],
    )
    .unwrap();
    assert_eq!(
        print_matrix("min", report.min(), report.cores(), &plain()),
        "\n[min (ns)]\n CPU    4   17  130\n   4    0    1   22\n  17    1    0  333\n 130   22  333    0\n\n"
    );
}

#[test]
fn numbers_wider_than_their_column_are_printed_in_full() {
    let report = assemble(
        vec![123456, 7],
        &vec![PairLatency::new(99999, 1234567).unwrap()],
    )
    .unwrap();
    assert_eq!(
        print_matrix("avg", report.avg(), report.cores(), &plain()),
        "\n[avg (ns)]\n CPU123456    7\n123456    01234567\n   71234567    0\n\n"
    );
    assert_eq!(
        print_matrix("min", report.min(), report.cores(), &plain()),
        "\n[min (ns)]\n CPU123456    7\n123456    099999\n   799999    0\n\n"
    );
}

#[test]
fn a_matrix_without_cores_has_a_header_only() {
    let report = assemble(Vec::new(), &Vec::new()).unwrap();
    assert_eq!(
        print_matrix("min", report.min(), report.cores(), &plain()),
        "\n[min (ns)]\n CPU\n\n"
    );
    assert_eq!(
        print_matrix("min", report.min(), report.cores(), &markdown()),
        "\n#### [min (ns)]\n CPU |\n --: | \n\n"
    );
}

#[test]
fn the_report_is_the_minimum_then_the_average() {
    let report = two_cores();
    assert_eq!(
        render(&report, &plain()),
        "\n[min (ns)]\n CPU    0    1\n   0    0   12\n   1   12    0\n\n\n[avg (ns)]\n CPU    0    1\n   0    0   15\n   1   15    0\n\n"
    );
}

#[test]
fn the_plot_is_set_up_once_and_ended_once() {
    let report = two_cores();
    let text = render(&report, &plot());
    let setup = [
        "reset                                       \n",
        "unset key                                   \n",
        "set auto noextend                           \n",
        "set autoscale fix                           \n",
        "set multiplot layout 2,1                    \n",
        "set palette defined (0 'white', 1 'orange') \n",
    ]
    .concat();
    let expected = [
        setup,
        print_matrix("min", report.min(), report.cores(), &plot()),
        print_matrix("avg", report.avg(), report.cores(), &plot()),
        "unset multiplot\n".to_string(),
    ]
    .concat();
    assert_eq!(text, expected);
    assert_eq!(text.matches("reset").count(), 1);
    assert_eq!(text.matches("$data << EOD").count(), 2);
}

#[test]
fn a_matrix_is_appended_to_what_is_there() {
    let report = two_cores();
    let mut text = String::from("before");
    push_matrix(&mut text, "min", report.min(), report.cores(), &plain());
    assert_eq!(
        text,
        "before\n[min (ns)]\n CPU    0    1\n   0    0   12\n   1   12    0\n\n"
    );
}
