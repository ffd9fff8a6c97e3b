use c2clat::channel::Channel;
use c2clat::geometry::{CacheGeometry, DEFAULT_LINE_SIZE, MAX_LINE_SIZE};
use c2clat::protocol::Direction;

fn address_of<T>(cell: &T) -> usize {
    let text = format!("{:p}", cell);
    usize::from_str_radix(text.trim_start_matches("0x"), 16).unwrap()
}

#[test]
fn a_line_of_64_bytes_holds_a_cell_of_8_and_7_fillers() {
    let g = CacheGeometry::new(64, 8).unwrap();
    assert_eq!(g.line_size(), 64);
    assert_eq!(g.cell_width(), 8);
    assert_eq!(g.pad_count(), 7);
    assert_eq!((g.pad_count() + 1) * g.cell_width(), 64);
}

#[test]
fn pad_count_is_line_size_over_cell_width_less_one() {
    assert_eq!(CacheGeometry::new(128, 8).unwrap().pad_count(), 15);
    assert_eq!(CacheGeometry::new(64, 4).unwrap().pad_count(), 15);
    assert_eq!(CacheGeometry::new(32, 8).unwrap().pad_count(), 3);
    assert_eq!(CacheGeometry::new(8, 8).unwrap().pad_count(), 0);
    assert_eq!(CacheGeometry::new(4096, 1).unwrap().pad_count(), 4095);
}

#[test]
fn an_unusable_line_size_gives_way_to_the_default() {
    assert_eq!(DEFAULT_LINE_SIZE, 64);
    assert_eq!(MAX_LINE_SIZE, 4096);
    // not detected
    assert_eq!(CacheGeometry::new(0, 8).unwrap().line_size(), 64);
    // shorter than a cell
    assert_eq!(CacheGeometry::new(4, 8).unwrap().line_size(), 64);
    // not a whole number of cells
    assert_eq!(CacheGeometry::new(100, 8).unwrap().line_size(), 64);
    // absurdly long
    assert_eq!(CacheGeometry::new(8192, 8).unwrap().line_size(), 64);
    assert_eq!(CacheGeometry::new(usize::MAX, 8).unwrap().line_size(), 64);
}

#[test]
fn there_is_no_geometry_where_the_default_does_not_suit_either() {
    assert!(CacheGeometry::new(64, 0).is_none());
    assert!(CacheGeometry::new(0, 0).is_none());
    assert!(CacheGeometry::new(64, 3).is_none());
    assert!(CacheGeometry::new(100, 128).is_none());
    // a line of its own kind is fine where it is usable
    assert_eq!(CacheGeometry::new(96, 3).unwrap().pad_count(), 31);
}

#[test]
fn word_cells_are_as_wide_as_a_machine_word() {
    let g = CacheGeometry::for_word_cells(64);
    assert_eq!(g.cell_width(), std::mem::size_of::<isize>());
    assert_eq!(g.line_size(), 64);
    assert_eq!(CacheGeometry::for_word_cells(0).line_size(), 64);
    assert_eq!(CacheGeometry::for_word_cells(128).line_size(), 128);
}

#[test]
fn the_cells_of_a_channel_are_one_line_apart() {
    let g = CacheGeometry::new(64, std::mem::size_of::<isize>()).unwrap();
    let channel = Channel::new(&g);
    let forward_slot = channel.slot_of(Direction::Forward);
    let backward_slot = channel.slot_of(Direction::Backward);
    assert!(forward_slot <= g.pad_count());
    assert_eq!(backward_slot, forward_slot + g.pad_count() + 1);
    assert_eq!(channel.geometry().line_size(), 64);
    let forward = address_of(channel.cell(Direction::Forward));
    let backward = address_of(channel.cell(Direction::Backward));
    assert_eq!(backward - forward, 64);
    assert_ne!(forward / 64, backward / 64);
}

#[test]
fn each_cell_of_a_channel_starts_a_line() {
    for line in [32usize, 64, 128, 256] {
        let g = CacheGeometry::new(line, std::mem::size_of::<isize>()).unwrap();
        for _ in 0..8 {
            let channel = Channel::new(&g);
            let forward = address_of(channel.cell(Direction::Forward));
            let backward = address_of(channel.cell(Direction::Backward));
            assert_eq!(forward % line, 0);
            assert_eq!(backward % line, 0);
            assert_eq!(backward, forward + line);
        }
    }
}

#[test]
fn the_cells_are_moved_up_to_the_next_line_boundary() {
    let g = CacheGeometry::new(64, 8).unwrap();
    assert_eq!(g.lead_slots(0), 0);
    assert_eq!(g.lead_slots(64), 0);
    assert_eq!(g.lead_slots(8), 7);
    assert_eq!(g.lead_slots(56), 1);
    assert_eq!(g.lead_slots(72), 7);
    assert_eq!(g.lead_slots(120), 1);
    assert_eq!(g.lead_slots(0x7ffe_1234_5678), 1);
    for base in (0..4096).step_by(8) {
        let lead = g.lead_slots(base);
        assert!(lead <= g.pad_count());
        assert_eq!((base + lead * 8) % 64, 0);
    }
    // a buffer that is not even aligned to its cells is left as it is
    assert_eq!(g.lead_slots(4), 0);
    assert_eq!(g.lead_slots(63), 0);
    // a line of one cell needs no moving
    let g = CacheGeometry::new(8, 8).unwrap();
    assert_eq!(g.lead_slots(8), 0);
    assert_eq!(g.lead_slots(24), 0);
}

#[test]
fn no_two_cells_of_any_channels_share_a_line() {
    let g = CacheGeometry::new(64, std::mem::size_of::<isize>()).unwrap();
    let channels: Vec<Channel> = (0..16).map(|_| Channel::new(&g)).collect();
    let mut lines = Vec::new();
    for channel in &channels {
        lines.push(address_of(channel.cell(Direction::Forward)) / 64);
        lines.push(address_of(channel.cell(Direction::Backward)) / 64);
    }
    lines.sort();
    let before = lines.len();
    lines.dedup();
    assert_eq!(lines.len(), before);
}

#[test]
fn a_fresh_channel_holds_the_idle_value_in_both_cells() {
    let channel = Channel::new(&CacheGeometry::for_word_cells(64));
    assert_eq!(channel.observe(Direction::Forward), -1);
    assert_eq!(channel.observe(Direction::Backward), -1);
}

#[test]
fn what_is_published_is_observed_in_the_same_cell_only() {
    let channel = Channel::new(&CacheGeometry::for_word_cells(64));
    channel.publish(Direction::Forward, 41);
    assert_eq!(channel.observe(Direction::Forward), 41);
    assert_eq!(channel.observe(Direction::Backward), -1);
    channel.publish(Direction::Backward, 7);
    assert_eq!(channel.observe(Direction::Forward), 41);
    assert_eq!(channel.observe(Direction::Backward), 7);
    channel.publish(Direction::Forward, 42);
    assert_eq!(channel.observe(Direction::Forward), 42);
}
