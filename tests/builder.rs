use rtshark::builder::{ArgsError, RTSharkBuilder};
use rtshark::version::RTSharkVersion;

#[test]
fn file_input_arguments() {
    let b = RTSharkBuilder::builder()
        .input_path("/tmp/in.pcap")
        .display_filter("udp.port == 53")
        .capture_filter("port 53")
        .output_path("/tmp/out.pcap")
        .decode_as("udp.port==6000,rtp")
        .option("tcp.relative_sequence_numbers:false")
        .keylog_file("/tmp/keys.txt")
        .metadata_whitelist("ip.src")
        .metadata_whitelist("udp.dstport")
        .disable_protocol("sip")
        .enable_protocol("ALL");
    let args = b.prepare_args().unwrap();
    assert_eq!(
        args,
        vec![
            "-r", "/tmp/in.pcap", "-n", "-Q", "-w", "/tmp/out.pcap", "-Y", "udp.port == 53",
            "-d", "udp.port==6000,rtp", "-o", "tcp.relative_sequence_numbers:false", "-o",
            "tls.keylog_file:/tmp/keys.txt", "-e", "ip.src", "-e", "udp.dstport",
            "--disable-protocol", "sip", "--enable-protocol", "ALL",
        ]
    );
    assert_eq!(b.offline_input(), Some("/tmp/in.pcap"));
    let spawn = b.spawn_args().unwrap();
    assert_eq!(&spawn[spawn.len() - 2..], &["-Tpdml", "-l"]);
}

#[test]
fn live_capture_arguments() {
    let b = RTSharkBuilder::builder()
        .input_path("eth0")
        .input_path("/tmp/pcap.pipe")
        .live_capture()
        .capture_filter("port 53")
        .metadata_blacklist("ip.src")
        .env_path("/opt/wireshark/bin");
    assert_eq!(
        b.prepare_args().unwrap(),
        vec!["-i", "eth0", "-i", "/tmp/pcap.pipe", "-n", "-Q", "-f", "port 53"]
    );
    assert_eq!(b.offline_input(), None);
    assert_eq!(b.search_path(), "/opt/wireshark/bin");
    assert_eq!(b.blacklist(), vec!["ip.src".to_string()]);
}

#[test]
fn two_capture_files_are_refused() {
    let b = RTSharkBuilder::builder().input_path("/tmp/a.pcap").input_path("/tmp/b.pcap");
    assert_eq!(b.prepare_args(), Err(ArgsError::MultipleInputs));
    assert_eq!(b.spawn_args(), Err(ArgsError::MultipleInputs));
}

#[test]
fn version_from_message() {
    let message = "TShark (Wireshark) 4.0.6 (Git v4.0.6 packaged as 4.0.6-1).\n\nCopyright 1998-2023".to_string();
    let v = RTSharkVersion::from_message(message.clone()).unwrap();
    assert_eq!(v.version(), &semver::Version::new(4, 0, 6));
    assert_eq!(v.message(), message);
    assert!(RTSharkVersion::from_message("no version here".to_string()).is_none());
}
