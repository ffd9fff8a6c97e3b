use c2clat::number::{digit_of, parse_word};
use c2clat::options::{is_word, trim_dashes, Opt};
use c2clat::params::ConfigError;

fn args(list: &[&str]) -> Vec<String> {
    list.iter().map(|s| s.to_string()).collect()
}

#[test]
fn no_options_give_the_defaults() {
    let d = Opt::default();
    assert_eq!(d, Opt { md: false, plot: false, nsamples: 1000 });
    assert_eq!(Opt::parse(&args(&["c2clat"])), Ok(d));
    assert_eq!(Opt::parse(&Vec::new()), Ok(d));
}

#[test]
fn the_program_name_is_not_an_option() {
    assert_eq!(Opt::parse(&args(&["--md"])), Ok(Opt::default()));
    assert_eq!(Opt::parse(&args(&["-p"])), Ok(Opt::default()));
}

#[test]
fn markdown_and_plot_exclude_each_other() {
    let md = Opt { md: true, plot: false, nsamples: 1000 };
    let plot = Opt { md: false, plot: true, nsamples: 1000 };
    assert_eq!(Opt::parse(&args(&["c2clat", "--md"])), Ok(md));
    assert_eq!(Opt::parse(&args(&["c2clat", "-p"])), Ok(plot));
    assert_eq!(Opt::parse(&args(&["c2clat", "--plot"])), Ok(plot));
    assert_eq!(Opt::parse(&args(&["c2clat", "--md", "-p"])), Ok(plot));
    assert_eq!(Opt::parse(&args(&["c2clat", "-p", "--md"])), Ok(md));
}

#[test]
fn any_number_of_dashes_may_stand_in_front() {
    let md = Opt { md: true, plot: false, nsamples: 1000 };
    assert_eq!(Opt::parse(&args(&["c2clat", "md"])), Ok(md));
    assert_eq!(Opt::parse(&args(&["c2clat", "-md"])), Ok(md));
    assert_eq!(Opt::parse(&args(&["c2clat", "-----md"])), Ok(md));
}

#[test]
fn the_sample_count_follows_n() {
    let five = Opt { md: false, plot: false, nsamples: 5 };
    assert_eq!(Opt::parse(&args(&["c2clat", "-n", "5"])), Ok(five));
    assert_eq!(
        Opt::parse(&args(&["c2clat", "-n", "5", "-p"])),
        Ok(Opt { md: false, plot: true, nsamples: 5 })
    );
    assert_eq!(
        Opt::parse(&args(&["c2clat", "-n", "5", "-n", "9"])),
        Ok(Opt { md: false, plot: false, nsamples: 9 })
    );
    assert_eq!(
        Opt::parse(&args(&["c2clat", "-n", "-3"])),
        Ok(Opt { md: false, plot: false, nsamples: -3 })
    );
}

#[test]
fn n_at_the_end_keeps_the_sample_count() {
    assert_eq!(Opt::parse(&args(&["c2clat", "-n"])), Ok(Opt::default()));
}

#[test]
fn a_sample_count_that_is_no_number_is_an_error() {
    let e = Err(ConfigError::SampleCountNotNumeric);
    assert_eq!(Opt::parse(&args(&["c2clat", "-n", "many"])), e);
    assert_eq!(Opt::parse(&args(&["c2clat", "-n", ""])), e);
    assert_eq!(Opt::parse(&args(&["c2clat", "-n", "12x"])), e);
    assert_eq!(Opt::parse(&args(&["c2clat", "-n", "--md"])), e);
    assert_eq!(Opt::parse(&args(&["c2clat", "-n", "1.5"])), e);
    assert_eq!(Opt::parse(&args(&["c2clat", "-n", "99999999999999999999999"])), e);
    assert_eq!(Opt::parse(&args(&["c2clat", "-p", "-n", "x", "--md"])), e);
}

#[test]
fn what_is_not_an_option_is_passed_over() {
    assert_eq!(
        Opt::parse(&args(&["c2clat", "--verbose", "17", "", "-", "mdx", "pl", "N"])),
        Ok(Opt::default())
    );
}

#[test]
fn the_options_give_the_parameters() {
    let opt = Opt::parse(&args(&["c2clat", "-n", "5"])).unwrap();
    assert_eq!(opt.parameters().unwrap().sample_count(), 5);
    assert_eq!(Opt::default().parameters().unwrap().sample_count(), 1000);
    let opt = Opt::parse(&args(&["c2clat", "-n", "-3"])).unwrap();
    assert_eq!(opt.parameters().err(), Some(ConfigError::SampleCountNotPositive));
}

#[test]
fn dashes_are_trimmed_from_the_front_only() {
    assert_eq!(trim_dashes("--plot"), "plot");
    assert_eq!(trim_dashes("plot"), "plot");
    assert_eq!(trim_dashes("-a-b-"), "a-b-");
    assert_eq!(trim_dashes("---"), "");
    assert_eq!(trim_dashes(""), "");
}

#[test]
fn words_are_compared_as_a_whole() {
    assert!(is_word("md", "md"));
    assert!(!is_word("md", "m"));
    assert!(!is_word("m", "md"));
    assert!(is_word("", ""));
}

#[test]
fn numbers_are_read_as_std_reads_them() {
    let accepted = ["0", "7", "12", "+12", "-12", "000", "-0", "+0", "0012", "1000"];
    for text in accepted {
        assert_eq!(parse_word(text), Some(text.parse::<isize>().unwrap()));
    }
    assert_eq!(parse_word("12"), Some(12));
    assert_eq!(parse_word("-12"), Some(-12));
    assert_eq!(parse_word("+12"), Some(12));
    assert_eq!(parse_word("0012"), Some(12));
    let refused = ["", "+", "-", "--1", "+-1", "1-", "1 ", " 1", "1_000", "0x10", "\u{663}", "1e3", "a"];
    for text in refused {
        assert!(text.parse::<isize>().is_err());
        assert_eq!(parse_word(text), None);
    }
}

#[test]
fn numbers_up_to_the_ends_of_the_machine_word_are_read() {
    let max = isize::MAX.to_string();
    let min = isize::MIN.to_string();
    assert_eq!(parse_word(&max), Some(isize::MAX));
    assert_eq!(parse_word(&min), Some(isize::MIN));
    assert_eq!(parse_word(&format!("+{max}")), Some(isize::MAX));
    assert_eq!(parse_word(&format!("000000000000000000000000000000{max}")), Some(isize::MAX));
    // one beyond either end
    let beyond_max = (isize::MAX as i128 + 1).to_string();
    let beyond_min = (isize::MIN as i128 - 1).to_string();
    assert_eq!(parse_word(&beyond_max), None);
    assert_eq!(parse_word(&beyond_min), None);
    assert_eq!(parse_word("18446744073709551616"), None);
    assert_eq!(parse_word("-18446744073709551617"), None);
    assert_eq!(parse_word("340282366920938463463374607431768211456"), None);
    assert_eq!(parse_word("99999999999999999999999999999999999999999999999999"), None);
}

#[test]
fn digits_have_their_values() {
    assert_eq!(digit_of('0'), Some(0));
    assert_eq!(digit_of('9'), Some(9));
    assert_eq!(digit_of('/'), None);
    assert_eq!(digit_of(':'), None);
    assert_eq!(digit_of('a'), None);
}
