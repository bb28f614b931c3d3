use realingo::pulse::{monitor_of_default_sink, parse_sources, read_step, ReadStep};

/// Trimmed from real `pactl list sources` output on Ubuntu (PipeWire): two monitors and
/// one ordinary microphone.
const SAMPLE: &str = "Source #0
\tState: SUSPENDED
\tName: alsa_output.pci-0000_00_1f.3.analog-stereo.monitor
\tDescription: Monitor of Built-in Audio Analog Stereo
\tDriver: PipeWire
\tMonitor of Sink: alsa_output.pci-0000_00_1f.3.analog-stereo
\tProperties:
\t\tdevice.description = \"Built-in Audio\"

Source #1
\tState: RUNNING
\tName: alsa_input.pci-0000_00_1f.3.analog-stereo
\tDescription: Built-in Audio Analog Stereo
\tDriver: PipeWire
\tMonitor of Sink: n/a
\tProperties:
\t\tdevice.description = \"Built-in Audio\"

Source #2
\tState: SUSPENDED
\tName: alsa_output.usb-Generic_USB_Audio-00.analog-stereo.monitor
\tDescription: Monitor of USB Audio
\tDriver: PipeWire
\tMonitor of Sink: alsa_output.usb-Generic_USB_Audio-00.analog-stereo
";

#[test]
fn keeps_only_monitor_sources() {
    let found = parse_sources(SAMPLE);
    let names: Vec<_> = found.iter().map(|m| m.name.as_str()).collect();
    assert_eq!(
        names,
        [
            "alsa_output.pci-0000_00_1f.3.analog-stereo.monitor",
            "alsa_output.usb-Generic_USB_Audio-00.analog-stereo.monitor"
        ],
        "the plain microphone (Monitor of Sink: n/a) must not be offered as system audio"
    );
    assert_eq!(found[0].label, "Monitor of Built-in Audio Analog Stereo");
}

#[test]
fn the_last_record_is_not_dropped() {
    // The sample ends without a trailing blank line — the shape that loses a record when
    // flushing is driven by separators instead of by the next header.
    assert_eq!(parse_sources(SAMPLE).len(), 2);
}

#[test]
fn survives_empty_and_garbage_input() {
    assert!(parse_sources("").is_empty());
    assert!(parse_sources("no sources here\nName: dangling\n").is_empty());
}

#[test]
fn a_monitor_without_description_is_labelled_by_its_name() {
    let found = parse_sources("Source #7\r\n  Monitor of Sink: x\r\n  Name:  out.monitor \r\n");
    assert_eq!(found.len(), 1);
    assert_eq!(found[0].name, "out.monitor");
    assert_eq!(found[0].label, "out.monitor");
}

#[test]
fn a_trailing_header_changes_nothing() {
    let mut text = SAMPLE.to_string();
    text.push_str("Source #3\n");
    let a: Vec<String> = parse_sources(SAMPLE).into_iter().map(|m| m.name).collect();
    let b: Vec<String> = parse_sources(&text).into_iter().map(|m| m.name).collect();
    assert_eq!(a, b);
}

#[test]
fn default_monitor_is_the_sink_name_with_the_suffix() {
    assert_eq!(
        monitor_of_default_sink("alsa_output.pci.analog-stereo\n").as_deref(),
        Some("alsa_output.pci.analog-stereo.monitor")
    );
    assert_eq!(monitor_of_default_sink(" \n"), None);
    assert_eq!(monitor_of_default_sink(""), None);
}

#[test]
fn reading_stops_at_a_full_buffer_or_the_end_of_the_stream() {
    assert!(matches!(read_step(4, 0, 0), ReadStep::EndOfStream));
    assert!(matches!(read_step(4, 0, 3), ReadStep::More(3)));
    assert!(matches!(read_step(4, 3, 1), ReadStep::Filled));
    assert!(matches!(read_step(0, 0, 0), ReadStep::Filled));
}

#[test]
fn listings_of_whole_lines_concatenate() {
    let a = "Source #0\n\tName: a.monitor\n\tMonitor of Sink: a\n";
    let b = "Source #1\n\tName: b.monitor\n\tDescription: B\n\tMonitor of Sink: b\n";
    let both: Vec<(String, String)> =
        parse_sources(&format!("{a}{b}")).into_iter().map(|m| (m.name, m.label)).collect();
    let mut parts: Vec<(String, String)> = parse_sources(a).into_iter().map(|m| (m.name, m.label)).collect();
    parts.extend(parse_sources(b).into_iter().map(|m| (m.name, m.label)));
    assert_eq!(both, parts);
    assert_eq!(both.len(), 2);
}
