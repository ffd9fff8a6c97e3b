use c2clat::cpuid::{
    cache_query_list, cpuid_pool, detect_l1d_line_size, dump_query_list, l1d_line_size_in,
    raw_pool, raw_text, results_in, run_queries, CpuidResult, RawCpuid, CACHE_LEAF,
    CACHE_LEAF_AMD, EXTENDED_BASE,
};
use c2clat::fms::{FamModStep, ProcInfo, ProcessNode};
use c2clat::text::{
    decimal_len, hex_digit_of, push_decimal, push_decimal_right, push_hex_fixed, push_hex_short,
    push_repeated,
};

fn registers(eax: u32, ebx: u32, ecx: u32, edx: u32) -> CpuidResult {
    CpuidResult { eax, ebx, ecx, edx }
}

#[test]
fn exe_keeps_leaf_and_sub_leaf() {
    let raw = RawCpuid::exe(0, 0);
    assert_eq!(raw.leaf, 0);
    assert_eq!(raw.sub_leaf, 0);
    let raw = RawCpuid::exe(0x4, 2);
    assert_eq!(raw.leaf, 4);
    assert_eq!(raw.sub_leaf, 2);
}

#[test]
fn exe_asks_the_processor() {
    // leaf 0 gives the highest basic leaf and the vendor's name, which
    // is the same on every core and never all zero
    let a = RawCpuid::exe(0, 0);
    let b = RawCpuid::exe(0, 0);
    assert_eq!(a, b);
    assert!(a.result.eax >= 1);
    assert_ne!((a.result.ebx, a.result.ecx, a.result.edx), (0, 0, 0));
    // the extended range answers with its own highest leaf
    let e = RawCpuid::exe(EXTENDED_BASE, 0);
    assert!(e.result.eax >= EXTENDED_BASE);
}

#[test]
fn the_dump_line_of_a_query() {
    let raw = RawCpuid {
        leaf: 0x8000_001D,
        sub_leaf: 0xB,
        result: registers(0x1234_5678, 0x9ABC_DEF0, 0, 0xFFFF_FFFF),
    };
    assert_eq!(
        raw.result("end"),
        "  0x8000001D_xB:  0x12345678 0x9ABCDEF0 0x00000000 0xFFFFFFFF end"
    );
    assert_eq!(
        raw.raw_fmt(),
        "  0x8000001D_xB:  0x12345678 0x9ABCDEF0 0x00000000 0xFFFFFFFF \n"
    );
    assert_eq!(
        raw.parse_fmt(" [L1D]".to_string()),
        "  0x8000001D_xB:  0x12345678 0x9ABCDEF0 0x00000000 0xFFFFFFFF  [L1D]"
    );
}

#[test]
fn the_dump_line_is_what_std_formats() {
    let cases = [
        (0u32, 0u32, registers(0, 0, 0, 0)),
        (1, 0x10, registers(0x00A2_0F12, 0x0C10_0800, 0x7EF8_320B, 0x178B_FBFF)),
        (0xD, 0xFF, registers(1, 2, 3, 4)),
        (u32::MAX, u32::MAX, registers(u32::MAX, 0x8000_0000, 0x0000_000A, 0xA000_0000)),
    ];
    for (leaf, sub_leaf, result) in cases {
        let raw = RawCpuid { leaf, sub_leaf, result };
        let expected = format!(
            "  0x{:08X}_x{:1X}:  0x{:08X} 0x{:08X} 0x{:08X} 0x{:08X} {}",
            leaf, sub_leaf, result.eax, result.ebx, result.ecx, result.edx, "#",
        );
        assert_eq!(raw.result("#"), expected);
    }
}

#[test]
fn hexadecimal_digits_are_upper_case() {
    let digits: String = (0..16).map(hex_digit_of).collect();
    assert_eq!(digits, "0123456789ABCDEF");
}

#[test]
fn hexadecimal_of_fixed_width_keeps_its_zeros() {
    let mut s = String::from(">");
    push_hex_fixed(&mut s, 0xBEEF, 8);
    assert_eq!(s, ">0000BEEF");
    let mut s = String::new();
    push_hex_fixed(&mut s, 0x1234_5678, 4);
    assert_eq!(s, "5678");
    let mut s = String::new();
    push_hex_fixed(&mut s, 0x1234_5678, 0);
    assert_eq!(s, "");
}

#[test]
fn short_hexadecimal_drops_its_zeros() {
    for (value, text) in [(0u32, "0"), (9, "9"), (0xA, "A"), (0x10, "10"), (0xFF, "FF"), (u32::MAX, "FFFFFFFF")] {
        let mut s = String::new();
        push_hex_short(&mut s, value);
        assert_eq!(s, text);
    }
}

#[test]
fn decimal_digits_and_their_count() {
    for value in [0u128, 7, 10, 99, 100, 12345, u64::MAX as u128, u128::MAX] {
        let mut s = String::from("=");
        push_decimal(&mut s, value);
        assert_eq!(s, format!("={value}"));
        assert_eq!(decimal_len(value), value.to_string().len());
    }
    assert_eq!(decimal_len(u128::MAX), 39);
}

#[test]
fn decimal_at_the_right_edge_of_a_field() {
    for (value, width) in [(0u128, 5usize), (12, 5), (99999, 5), (123456, 5), (7, 0), (7, 1), (3, 4)] {
        let mut s = String::new();
        push_decimal_right(&mut s, value, width);
        assert_eq!(s, format!("{value:>width$}"));
    }
}

#[test]
fn a_character_is_repeated() {
    let mut s = String::from("a");
    push_repeated(&mut s, '-', 3);
    push_repeated(&mut s, '+', 0);
    assert_eq!(s, "a---");
}

#[test]
fn the_dump_asks_53_queries_in_order() {
    let list = dump_query_list();
    assert_eq!(list.len(), 53);
    let mut expected: Vec<(u32, u32)> = Vec::new();
    for leaf in 0x0..=0xC {
        match leaf {
            0x4 => {
                for sub_leaf in 0..=4 {
                    expected.push((leaf, sub_leaf));
                }
            }
            0x7 => {
                for sub_leaf in 0..=1 {
                    expected.push((leaf, sub_leaf));
                }
            }
            _ => expected.push((leaf, 0x0)),
        }
    }
    for sub_leaf in [0x0, 0x1, 0x2, 0x9, 0xB, 0xC] {
        expected.push((0xD, sub_leaf));
    }
    for sub_leaf in 0..6 {
        expected.push((0x1F, sub_leaf));
    }
    for leaf in 0x8000_0000..=0x8000_000Au32 {
        expected.push((leaf, 0x0));
    }
    for leaf in 0x8000_0019..=0x8000_0021u32 {
        match leaf {
            0x8000_001D => {
                for sub_leaf in 0x1..=0x4 {
                    expected.push((leaf, sub_leaf));
                }
            }
            _ => expected.push((leaf, 0x0)),
        }
    }
    assert_eq!(list, expected);
}

#[test]
fn the_pool_holds_a_result_for_each_query() {
    let pool = cpuid_pool();
    let list = dump_query_list();
    assert_eq!(pool.len(), list.len());
    for (raw, (leaf, sub_leaf)) in pool.iter().zip(list) {
        assert_eq!((raw.leaf, raw.sub_leaf), (leaf, sub_leaf));
    }
    assert_eq!(pool[0], RawCpuid::exe(0, 0));
}

#[test]
fn the_raw_dump_is_one_line_for_each_result() {
    let pool = vec![
        RawCpuid { leaf: 0, sub_leaf: 0, result: registers(0x10, 1, 2, 3) },
        RawCpuid { leaf: 7, sub_leaf: 1, result: registers(4, 5, 6, 7) },
    ];
    assert_eq!(
        raw_text(&pool),
        "  0x00000000_x0:  0x00000010 0x00000001 0x00000002 0x00000003 \n  0x00000007_x1:  0x00000004 0x00000005 0x00000006 0x00000007 \n"
    );
    assert_eq!(raw_text(&Vec::new()), "");
    let dump = raw_pool();
    assert_eq!(dump.lines().count(), 53);
    assert!(dump.starts_with("  0x00000000_x0:  0x"));
}

#[test]
fn the_line_size_of_the_level_one_data_cache() {
    // type 1 (data), level 1, line size 64: eax = 0x21, ebx[11:0] = 63
    let l1d = registers(0x0000_0121, 0x01C0_003F, 63, 0);
    // type 2 (instruction), level 1, line size 32
    let l1i = registers(0x0000_0122, 0x01C0_001F, 63, 0);
    // type 3 (unified), level 2, line size 128
    let l2 = registers(0x0000_0143, 0x01C0_007F, 1023, 0);
    // type 1 (data), level 2
    let l2d = registers(0x0000_0141, 0x01C0_00FF, 1023, 0);
    let none = registers(0, 0, 0, 0);
    assert!(l1d.describes_l1_data());
    assert!(!l1i.describes_l1_data());
    assert!(!l2.describes_l1_data());
    assert!(!l2d.describes_l1_data());
    assert!(!none.describes_l1_data());
    assert_eq!(l1d.cache_line_size(), 64);
    assert_eq!(l1i.cache_line_size(), 32);
    assert_eq!(l2.cache_line_size(), 128);
    assert_eq!(registers(0, 0xFFFF_FFFF, 0, 0).cache_line_size(), 4096);
    assert_eq!(none.cache_line_size(), 1);

    assert_eq!(l1d_line_size_in(&vec![l1i, l2, l1d, none]), 64);
    assert_eq!(l1d_line_size_in(&vec![none, none, l1i, l2, l2d]), 0);
    assert_eq!(l1d_line_size_in(&Vec::new()), 0);
    // the first one counts
    let other = registers(0x0000_0021, 0x0000_001F, 0, 0);
    assert!(other.describes_l1_data());
    assert_eq!(l1d_line_size_in(&vec![other, l1d]), 32);
    assert_eq!(l1d_line_size_in(&vec![l1d, other]), 64);
}

#[test]
fn the_cache_parameters_are_asked_under_both_numberings() {
    assert_eq!(CACHE_LEAF, 0x4);
    assert_eq!(CACHE_LEAF_AMD, 0x8000_001D);
    assert_eq!(
        cache_query_list(),
        vec![
            (0x4, 0),
            (0x4, 1),
            (0x4, 2),
            (0x4, 3),
            (0x4, 4),
            (0x8000_001D, 0),
            (0x8000_001D, 1),
            (0x8000_001D, 2),
            (0x8000_001D, 3),
            (0x8000_001D, 4),
        ]
    );
}

#[test]
fn each_query_is_answered_in_its_place() {
    let queries = vec![(0x0, 0), (0x4, 3), (0x8000_0000, 0), (0x7, 1)];
    let pool = run_queries(&queries);
    assert_eq!(pool.len(), 4);
    for (raw, (leaf, sub_leaf)) in pool.iter().zip(queries) {
        assert_eq!((raw.leaf, raw.sub_leaf), (leaf, sub_leaf));
    }
    assert_eq!(pool[0], RawCpuid::exe(0, 0));
    assert_eq!(pool[2].result, RawCpuid::exe(0x8000_0000, 0).result);
    assert!(run_queries(&Vec::new()).is_empty());
}

#[test]
fn the_registers_of_a_pool_keep_their_order() {
    let pool = vec![
        RawCpuid { leaf: 4, sub_leaf: 0, result: registers(1, 2, 3, 4) },
        RawCpuid { leaf: 4, sub_leaf: 1, result: registers(5, 6, 7, 8) },
    ];
    assert_eq!(results_in(&pool), vec![registers(1, 2, 3, 4), registers(5, 6, 7, 8)]);
    assert!(results_in(&Vec::new()).is_empty());
}

#[test]
fn the_detected_line_size_is_what_the_cache_leaves_say() {
    let results = results_in(&run_queries(&cache_query_list()));
    assert_eq!(results.len(), 10);
    let detected = detect_l1d_line_size();
    assert_eq!(detected, l1d_line_size_in(&results));
    assert!(detected <= 4096);
}

#[test]
fn a_signature_is_taken_apart() {
    // family 0xF + 0x0A, model 0x1 + 0x20, stepping 2
    let fms = FamModStep::from(0x00A2_0F12u32);
    assert_eq!(
        fms,
        FamModStep { syn_fam: 0x19, syn_mod: 0x21, step: 0x2, raw_eax: 0x00A2_0F12 }
    );
    // family 6, model 0xE + 0x90, stepping 0xA
    let fms = FamModStep::from(0x0009_06EAu32);
    assert_eq!(
        fms,
        FamModStep { syn_fam: 0x6, syn_mod: 0x9E, step: 0xA, raw_eax: 0x0009_06EA }
    );
    let fms = FamModStep::from(u32::MAX);
    assert_eq!(
        fms,
        FamModStep { syn_fam: 0xF + 0xFF, syn_mod: 0xFF, step: 0xF, raw_eax: u32::MAX }
    );
    assert_eq!(
        FamModStep::from(0u32),
        FamModStep { syn_fam: 0, syn_mod: 0, step: 0, raw_eax: 0 }
    );
}

#[test]
fn a_signature_is_taken_from_the_registers_of_leaf_one() {
    let r = registers(0x0009_06EA, 1, 2, 3);
    assert_eq!(FamModStep::from(&r), FamModStep::from(0x0009_06EAu32));
}

#[test]
fn the_signature_of_this_processor() {
    let fms = FamModStep::get();
    assert_eq!(fms, FamModStep::from(fms.raw_eax));
    assert_eq!(fms.raw_eax, RawCpuid::exe(1, 0).result.eax);
}

#[test]
fn a_process_node_in_words() {
    assert_eq!(ProcessNode::NM(14).text(), "14 nm");
    assert_eq!(ProcessNode::UM(0).text(), "0 um");
    assert_eq!(ProcessNode::Intel(7).text(), "Intel 7");
    assert_eq!(ProcessNode::NM(255).text(), "255 nm");
    assert_eq!(String::from(ProcessNode::NM(7)), "7 nm");
}

#[test]
fn the_names_of_a_processor() {
    let info = ProcInfo::info("Matisse", "Zen 2", ProcessNode::NM(7));
    assert_eq!(info.codename, "Matisse");
    assert_eq!(info.archname, "Zen 2");
    assert_eq!(info.process, "7 nm");
    let info = ProcInfo::info("", String::from("P6"), "250 nm");
    assert_eq!(info.codename, "");
    assert_eq!(info.archname, "P6");
    assert_eq!(info.process, "250 nm");
}
