use omniprobe::rtt::{
    halt_on_read, note_core_failure, poll_interval_ms, rtt_marker_position, scan_region_for,
    should_flush_rtt, RttBatcher, RttDataEvent, RttStartOptions, ScanRegionChoice,
};
use omniprobe::serial::{
    apply_line_ending, default_data_bits, default_flow_control, default_parity,
    default_stop_bits, encode_serial_text, map_data_bits, map_flow_control, map_parity,
    map_stop_bits, should_flush_serial, DataBitsChoice, FlowControlChoice, ParityChoice,
    StopBitsChoice,
};
use omniprobe::session::SerialStats;

fn start_options(mode: &str) -> RttStartOptions {
    RttStartOptions {
        scan_mode: mode.to_string(),
        address: Some(0x2000_0100),
        range_start: None,
        range_size: None,
        poll_interval: Some(10),
        halt_on_read: None,
    }
}

#[test]
fn exact_scan_mode_uses_the_given_address() {
    // Starting RTT with scan_mode=exact at 0x20000100 and a 10 ms poll
    // interval: the scan is skipped in favour of the exact address, and
    // halting on read stays off by default.
    let opts = start_options("exact");
    assert_eq!(scan_region_for(&opts), ScanRegionChoice::Exact(0x2000_0100));
    assert_eq!(poll_interval_ms(&opts), 10);
    assert!(!halt_on_read(&opts));
}

#[test]
fn range_and_auto_scan_modes() {
    let mut opts = start_options("range");
    opts.range_start = Some(0x2000_0000);
    opts.range_size = Some(0x4000);
    assert_eq!(scan_region_for(&opts), ScanRegionChoice::Range(0x2000_0000, 0x4000));
    opts.range_start = None;
    opts.range_size = None;
    assert_eq!(scan_region_for(&opts), ScanRegionChoice::Range(0x2000_0000, 0x1_0000));
    assert_eq!(scan_region_for(&start_options("auto")), ScanRegionChoice::Ram);
    assert_eq!(scan_region_for(&start_options("anything")), ScanRegionChoice::Ram);
}

#[test]
fn control_block_marker_is_found_in_ram_snapshot() {
    let mut ram = vec![0u8; 512];
    ram[256..266].copy_from_slice(b"SEGGER RTT");
    assert_eq!(rtt_marker_position(&ram), Some(256));
    assert_eq!(rtt_marker_position(&vec![0u8; 64]), None);
}

#[test]
fn batching_keeps_channel_order() {
    // Three records read off channel 0 in target-emit order come out of
    // the batcher in exactly that order.
    let mut batcher = RttBatcher::new();
    for (i, text) in [b"he" as &[u8], b"ll", b"o\n"].iter().enumerate() {
        batcher.push(RttDataEvent { channel: 0, data: text.to_vec(), timestamp: i as u64 });
    }
    assert_eq!(batcher.len(), 3);
    let drained = batcher.drain();
    assert_eq!(batcher.len(), 0);
    let joined: Vec<u8> = drained.iter().flat_map(|e| e.data.clone()).collect();
    assert_eq!(joined, b"hello\n");
    assert_eq!(drained[0].timestamp, 0);
    assert_eq!(drained[2].timestamp, 2);
}

#[test]
fn rtt_flush_thresholds() {
    assert!(!should_flush_rtt(9, 49));
    assert!(should_flush_rtt(10, 0));
    assert!(should_flush_rtt(0, 50));
}

#[test]
fn core_failure_budget_is_sixty() {
    let mut n = 0u32;
    let mut fatal = false;
    for _ in 0..59 {
        let (next, f) = note_core_failure(n);
        n = next;
        fatal = f;
        assert!(!fatal);
    }
    let (next, f) = note_core_failure(n);
    assert_eq!(next, 60);
    assert!(f);
    let _ = fatal;
}

#[test]
fn serial_defaults_are_8n1_without_flow_control() {
    assert_eq!(default_data_bits(), 8);
    assert_eq!(default_stop_bits(), 1);
    assert_eq!(default_parity(), "none");
    assert_eq!(default_flow_control(), "none");
}

#[test]
fn serial_setting_maps() {
    assert_eq!(map_data_bits(5), DataBitsChoice::Five);
    assert_eq!(map_data_bits(7), DataBitsChoice::Seven);
    assert_eq!(map_data_bits(8), DataBitsChoice::Eight);
    assert_eq!(map_data_bits(42), DataBitsChoice::Eight);
    assert_eq!(map_stop_bits(2), StopBitsChoice::Two);
    assert_eq!(map_stop_bits(1), StopBitsChoice::One);
    assert_eq!(map_parity("Even"), ParityChoice::Even);
    assert_eq!(map_parity("ODD"), ParityChoice::Odd);
    assert_eq!(map_parity("none"), ParityChoice::Off);
    assert_eq!(map_flow_control("hardware"), FlowControlChoice::Hardware);
    assert_eq!(map_flow_control("HW"), FlowControlChoice::Hardware);
    assert_eq!(map_flow_control("sw"), FlowControlChoice::Software);
    assert_eq!(map_flow_control("none"), FlowControlChoice::Off);
}

#[test]
fn terminal_write_of_at_command() {
    // Writing "AT" with CRLF at 115200-8N1: four bytes go out and the
    // statistics account exactly those four.
    let line = apply_line_ending("AT".to_string(), "crlf");
    assert_eq!(line, "AT\r\n");
    let bytes = encode_serial_text(&line, "utf-8");
    assert_eq!(bytes, b"AT\r\n");
    let mut stats = SerialStats::default();
    stats.record_sent(bytes.len() as u64);
    assert_eq!(stats.bytes_sent, 4);
    stats.record_received(4);
    assert!(stats.bytes_received >= 4);
}

#[test]
fn line_endings_and_ascii_encoding() {
    assert_eq!(apply_line_ending("x".to_string(), "lf"), "x\n");
    assert_eq!(apply_line_ending("x".to_string(), "cr"), "x\r");
    assert_eq!(apply_line_ending("x".to_string(), "none"), "x");
    assert_eq!(encode_serial_text("héllo", "ascii"), b"h?llo");
    assert_eq!(encode_serial_text("héllo", "utf-8"), "héllo".as_bytes());
}

#[test]
fn serial_flush_thresholds() {
    assert!(!should_flush_serial(4095, 9));
    assert!(should_flush_serial(4096, 0));
    assert!(should_flush_serial(0, 10));
}
