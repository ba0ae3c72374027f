//! Callsigns, the port file, the user map and Rose addresses.

use pdn_ax25::libax25::addr::{
    ax25_aton, ax25_aton_arglist, ax25_aton_entry, ax25_cmp, ax25_ntoa, ax25_validate, cmp_entry,
    decode_entry, encode_entry, null_ax25_address, same_address, strlwr, strupr, validate_entry,
    Ax25Address, FullSockaddrAx25, SockaddrAx25, AF_AX25, FULL_SOCKADDR_LEN,
};
use pdn_ax25::libax25::config::{
    axports_path, calls_path, get_call, get_call_loading, is_same_call, parse_axports, parse_calls, CText, CallTable,
    PortTable,
};
use pdn_ax25::libax25::rose::{rose_aton, rose_cmp, rose_ntoa, RoseAddress};

fn roundtrip(call: &str) -> String {
    let e = encode_entry(call).expect("encode");
    decode_entry(&e)
}

#[test]
fn m0lte_1_round_trips() {
    let e = encode_entry("M0LTE-1").unwrap();
    // 'M'<<1, '0'<<1, 'L'<<1, 'T'<<1, 'E'<<1, ' '<<1, then SSID 1 << 1.
    assert_eq!(
        e,
        [
            b'M' << 1,
            b'0' << 1,
            b'L' << 1,
            b'T' << 1,
            b'E' << 1,
            b' ' << 1,
            (1u8 << 1),
        ]
    );
    assert_eq!(decode_entry(&e), "M0LTE-1");
}

#[test]
fn ssid_zero_is_omitted_on_decode() {
    assert_eq!(roundtrip("M0LTE"), "M0LTE");
    assert_eq!(roundtrip("M0LTE-0"), "M0LTE");
}

#[test]
fn high_ssid_round_trips() {
    assert_eq!(roundtrip("GB7RDG-15"), "GB7RDG-15");
    assert_eq!(roundtrip("GB7RDG-10"), "GB7RDG-10");
}

#[test]
fn six_char_callsign_round_trips() {
    assert_eq!(roundtrip("GB7RDG"), "GB7RDG");
}

#[test]
fn invalid_symbol_rejected() {
    assert!(encode_entry("M0*TE").is_none());
    assert!(encode_entry("M0LTE-16").is_none()); // SSID out of range
    assert!(encode_entry("M0LTE-99").is_none());
}

#[test]
fn cmp_detects_ssid_only_difference() {
    let a = encode_entry("M0LTE-1").unwrap();
    let b = encode_entry("M0LTE-2").unwrap();
    let c = encode_entry("M0LTE-1").unwrap();
    let d = encode_entry("G0ABC-1").unwrap();
    assert_eq!(cmp_entry(&a, &c), 0);
    assert_eq!(cmp_entry(&a, &b), 2);
    assert_eq!(cmp_entry(&a, &d), 1);
}

#[test]
fn validate_accepts_real_and_rejects_garbage() {
    assert!(validate_entry(&encode_entry("M0LTE-1").unwrap()));
    // Byte with a low bit set that decodes to a control char is invalid.
    let bad = [0x01u8, 0x02, 0x03, 0x04, 0x05, 0x06, 0x00];
    assert!(!validate_entry(&bad));
}

#[test]
fn null_address_decodes_empty() {
    assert_eq!(decode_entry(&null_ax25_address().ax25_call), "");
}

#[test]
fn case_and_signs_do_not_matter() {
    assert_eq!(roundtrip("m0lte-7"), "M0LTE-7");
    assert_eq!(roundtrip("M0LTE-+5"), "M0LTE-5");
    assert_eq!(roundtrip("M0LTE- \t9"), "M0LTE-9");
    assert_eq!(roundtrip("M0LTE-05"), "M0LTE-5");
    assert_eq!(roundtrip("M0LTE--0"), "M0LTE");
    // What follows the digits does not matter.
    assert_eq!(roundtrip("M0LTE-1x"), "M0LTE-1");
    // Behind six characters one is skipped, whatever it is.
    assert_eq!(roundtrip("GB7RDGX5"), "GB7RDG-5");
    assert_eq!(roundtrip("-5"), "-5");
    assert_eq!(roundtrip(""), "");
}

#[test]
fn ssids_out_of_range_are_rejected() {
    for call in ["M0LTE-", "M0LTE-x", "M0LTE--1", "M0LTE-4294967297", "M0LTE-99999999999999999999"]
    {
        assert!(encode_entry(call).is_none(), "{call}");
    }
    assert!(encode_entry("GB7RDG\u{e9}5").is_none());
    assert!(encode_entry("G\u{e9}").is_none());
    assert!(encode_entry("GB7RDGX").is_none());
}

#[test]
fn low_bits_do_not_count() {
    let a = encode_entry("M0LTE-1").unwrap();
    let mut b = a;
    for x in b.iter_mut() {
        *x |= 1;
    }
    b[6] |= 0xE0;
    assert_eq!(cmp_entry(&a, &b), 0);
    assert!(same_address(&a, &b));
    assert_eq!(decode_entry(&b), "M0LTE-1");
    assert!(validate_entry(&b));
}

#[test]
fn c_interface_of_addresses() {
    let mut buf = [9u8; 7];
    assert_eq!(ax25_aton_entry(None, &mut buf), -1);
    assert_eq!(ax25_aton_entry(Some("M0*TE"), &mut buf), -1);
    assert_eq!(buf, [9u8; 7]);
    assert_eq!(ax25_aton_entry(Some("M0LTE-1"), &mut buf), 0);
    assert_eq!(buf, encode_entry("M0LTE-1").unwrap());
    let a = Ax25Address { ax25_call: buf };
    assert_eq!(ax25_ntoa(Some(&a)), "M0LTE-1");
    assert_eq!(ax25_ntoa(None), "");
    assert_eq!(ax25_cmp(Some(&a), Some(&a)), 0);
    assert_eq!(ax25_cmp(Some(&a), None), 1);
    assert_eq!(ax25_cmp(None, Some(&a)), 1);
    assert_eq!(ax25_validate(Some(&buf)), 1);
    assert_eq!(ax25_validate(Some(&[0u8; 7])), 0);
    assert_eq!(ax25_validate(None), 0);
}

fn blank() -> FullSockaddrAx25 {
    FullSockaddrAx25 {
        fsa_ax25: SockaddrAx25 {
            sax25_family: 99,
            sax25_call: Ax25Address { ax25_call: [1; 7] },
            sax25_ndigis: 77,
        },
        fsa_digipeater: [Ax25Address { ax25_call: [2; 7] }; 8],
    }
}

#[test]
fn a_path_is_filled_in() {
    let mut sax = blank();
    assert_eq!(ax25_aton(Some(" GB7RDG-2 via  M0LTE-1\tG0ABC "), &mut sax), FULL_SOCKADDR_LEN);
    assert_eq!(sax.fsa_ax25.sax25_family, AF_AX25);
    assert_eq!(sax.fsa_ax25.sax25_ndigis, 2);
    assert_eq!(decode_entry(&sax.fsa_ax25.sax25_call.ax25_call), "GB7RDG-2");
    assert_eq!(decode_entry(&sax.fsa_digipeater[0].ax25_call), "M0LTE-1");
    assert_eq!(decode_entry(&sax.fsa_digipeater[1].ax25_call), "G0ABC");
    assert_eq!(sax.fsa_digipeater[2].ax25_call, [2; 7]);
}

#[test]
fn separators_count_only_behind_the_callsign() {
    let mut sax = blank();
    assert_eq!(ax25_aton(Some("A V v ViA B V"), &mut sax), FULL_SOCKADDR_LEN);
    assert_eq!(sax.fsa_ax25.sax25_ndigis, 2);
    assert_eq!(decode_entry(&sax.fsa_digipeater[0].ax25_call), "B");
    assert_eq!(decode_entry(&sax.fsa_digipeater[1].ax25_call), "V");
    let mut sax = blank();
    assert_eq!(ax25_aton(Some("V A"), &mut sax), FULL_SOCKADDR_LEN);
    assert_eq!(decode_entry(&sax.fsa_ax25.sax25_call.ax25_call), "V");
}

#[test]
fn a_path_holds_eight_digipeaters() {
    let mut sax = blank();
    let tokens: Vec<String> =
        (0..11).map(|i| if i == 10 { "!!".to_string() } else { format!("C{i}") }).collect();
    assert_eq!(ax25_aton_arglist(Some(&tokens), &mut sax), FULL_SOCKADDR_LEN);
    assert_eq!(sax.fsa_ax25.sax25_ndigis, 8);
    assert_eq!(decode_entry(&sax.fsa_digipeater[7].ax25_call), "C8");
}

#[test]
fn a_bad_path_is_refused_where_it_breaks() {
    let mut sax = blank();
    assert_eq!(ax25_aton(Some("A B !! C"), &mut sax), -1);
    assert_eq!(decode_entry(&sax.fsa_ax25.sax25_call.ax25_call), "A");
    assert_eq!(decode_entry(&sax.fsa_digipeater[0].ax25_call), "B");
    assert_eq!(sax.fsa_digipeater[1].ax25_call, [2; 7]);
    assert_eq!(sax.fsa_ax25.sax25_ndigis, 77);
    assert_eq!(sax.fsa_ax25.sax25_family, 99);
    let mut sax = blank();
    assert_eq!(ax25_aton(None, &mut sax), -1);
    assert_eq!(ax25_aton_arglist(None, &mut sax), -1);
    assert_eq!(sax.fsa_ax25.sax25_call.ax25_call, [1; 7]);
}

#[test]
fn no_words_are_an_empty_callsign() {
    let mut sax = blank();
    assert_eq!(ax25_aton(Some(" \t"), &mut sax), FULL_SOCKADDR_LEN);
    assert_eq!(sax.fsa_ax25.sax25_ndigis, 0);
    assert_eq!(sax.fsa_ax25.sax25_call.ax25_call, null_ax25_address().ax25_call);
    let mut sax = blank();
    assert_eq!(ax25_aton_arglist(Some(&Vec::new()), &mut sax), FULL_SOCKADDR_LEN);
    assert_eq!(sax.fsa_ax25.sax25_ndigis, 0);
}

#[test]
fn case_changes_stop_at_the_end_of_a_c_string() {
    let mut s = b"aZ{\xe4\0aZ".to_vec();
    strupr(&mut s);
    assert_eq!(s, b"AZ{\xe4\0aZ".to_vec());
    let mut s = b"aZ[\xc4\0aZ".to_vec();
    strlwr(&mut s);
    assert_eq!(s, b"az[\xc4\0aZ".to_vec());
}

const SAMPLE: &str = "\
# axports sample
# name callsign speed paclen window description
radio   M0LTE-1   9600   255    4      2m packet via pdn
hf      GB7RDG-0  1200   128    2      HF gateway

144     G0ABC     9600   256    7      spare port
";

#[test]
fn parses_all_valid_lines_without_netdevice_filter() {
    let ports = parse_axports(SAMPLE);
    assert_eq!(ports.len(), 3);
    assert_eq!(ports[0].name, "radio");
    assert_eq!(ports[0].call, "M0LTE-1");
    assert_eq!(ports[0].baud, 9600);
    assert_eq!(ports[0].paclen, 255);
    assert_eq!(ports[0].window, 4);
    assert_eq!(ports[0].description, "2m packet via pdn");
}

#[test]
fn strips_trailing_dash_zero_from_callsign() {
    let ports = parse_axports(SAMPLE);
    // "GB7RDG-0" is stored as "GB7RDG".
    assert_eq!(ports[1].call, "GB7RDG");
}

#[test]
fn skips_comments_blank_lines_and_bad_lines() {
    let input = "\
# comment
good   M0LTE   9600 255 4 ok desc

bad_missing_fields   M0LTE
zerowin   G0XYZ   9600 255 0 window is zero
";
    let ports = parse_axports(input);
    assert_eq!(ports.len(), 1);
    assert_eq!(ports[0].name, "good");
}

#[test]
fn rejects_duplicate_name_and_callsign() {
    let input = "\
p1   M0LTE   9600 255 4 first
p1   G0XYZ   9600 255 4 dup name
p2   M0LTE   9600 255 4 dup call
";
    let ports = parse_axports(input);
    assert_eq!(ports.len(), 1);
}

#[test]
fn each_reason_to_drop_a_line() {
    let names = |input: &str| -> Vec<String> {
        parse_axports(input).into_iter().map(|p| p.name).collect()
    };
    assert!(names("p M0LTE 9600 255 4").is_empty()); // no description
    assert!(names("p M0LTE 9600 255 4  \t ").is_empty());
    assert!(names("p M0LTE -1 255 4 d").is_empty());
    assert!(names("p M0LTE x 255 4 d").is_empty());
    assert!(names("p M0LTE 9600 0 4 d").is_empty());
    assert!(names("p M0LTE 9600 255 -4 d").is_empty());
    assert!(names("p M0LTE 9600 255 99999999999 d").is_empty());
    assert!(names("p M0*TE 9600 255 4 d").is_empty());
    assert_eq!(names("p M0LTE 0 1 1 d"), vec!["p"]);
    assert_eq!(names("  p\tM0LTE +9600 255\t\t4 d \r\r\n#x\nP g0abc 1 1 1 d\nq m0lte 1 1 1 d\nr g0abc-0 1 1 1 d"), vec!["p", "r"]);
}

#[test]
fn port_fields_are_taken_apart() {
    let ports = parse_axports("p m0lte-05 1200 256 2  a  b \r\n");
    assert_eq!(ports.len(), 1);
    assert_eq!(ports[0].call, "M0LTE-05");
    assert_eq!(ports[0].description, "a  b");
    assert_eq!(parse_axports("p m0lte-0 1200 256 2 d")[0].call, "M0LTE");
    assert_eq!(parse_axports("p m0lte-10 1200 256 2 d")[0].call, "M0LTE-10");
}

#[test]
fn parses_uid_callsign_lines() {
    let input = "\
# uid callsign
1000 M0LTE-1
1001 g0abc
";
    let entries = parse_calls(input);
    assert_eq!(entries.len(), 2);
    assert_eq!(entries[0].uid, 1000);
    assert_eq!(entries[0].call, "M0LTE-1");
    assert_eq!(entries[1].uid, 1001);
    assert_eq!(entries[1].call, "G0ABC");
}

#[test]
fn skips_comments_blanks_and_invalid_lines() {
    let input = "\
# comment
0 M0LTE

notanum G0XYZ
1000
1001 !!!invalid!!!
";
    let entries = parse_calls(input);
    assert_eq!(entries.len(), 1);
    assert_eq!(entries[0].uid, 0);
    assert_eq!(entries[0].call, "M0LTE");
}

#[test]
fn rejects_duplicate_uid() {
    let input = "\
1000 M0LTE
1000 G0XYZ
";
    let entries = parse_calls(input);
    assert_eq!(entries.len(), 1);
    assert_eq!(entries[0].call, "M0LTE");
}

#[test]
fn uids_are_whole_signed_integers() {
    let uids: Vec<i32> = parse_calls("-5 A\n+6 B\n2147483647 C\n2147483648 D\n-2147483648 E\n7x F\n- G\n")
        .into_iter()
        .map(|e| e.uid)
        .collect();
    assert_eq!(uids, vec![-5, 6, i32::MAX, i32::MIN]);
}

fn table() -> PortTable {
    let mut t = PortTable::new();
    assert_eq!(t.ax25_config_load_ports(Some(SAMPLE)), 3);
    t
}

#[test]
fn loading_ports_is_idempotent() {
    let mut t = PortTable::new();
    assert_eq!(t.ax25_config_load_ports(None), 0);
    assert_eq!(t.len(), 0);
    assert_eq!(t.ax25_config_load_ports(Some(SAMPLE)), 3);
    assert_eq!(t.ax25_config_load_ports(Some("x G0ABC 1 1 1 d")), 3);
    assert_eq!(t.ax25_config_load_ports(None), 3);
    assert_eq!(t.ax25_config_get_next(CText::Null), Some("radio"));
}

#[test]
fn ports_are_looked_up_by_name_or_callsign() {
    let t = table();
    assert_eq!(t.ax25_config_get_addr(CText::Text("RADIO")), Some("M0LTE-1"));
    assert_eq!(t.ax25_config_get_addr(CText::Text("gb7rdg-0")), Some("GB7RDG"));
    assert_eq!(t.ax25_config_get_addr(CText::Text("nope")), None);
    assert_eq!(t.ax25_config_get_addr(CText::Null), None);
    assert_eq!(t.ax25_config_get_addr(CText::Undecodable), None);
    assert_eq!(t.ax25_config_get_dev(CText::Text("hf")), Some("hf"));
    assert_eq!(t.ax25_config_get_desc(CText::Text("G0ABC")), Some("spare port"));
    assert_eq!(t.ax25_config_get_window(CText::Text("144")), 7);
    assert_eq!(t.ax25_config_get_paclen(CText::Text("hf")), 128);
    assert_eq!(t.ax25_config_get_baud(CText::Text("hf")), 1200);
    assert_eq!(t.ax25_config_get_baud(CText::Text("x")), 0);
    assert_eq!(t.ax25_config_get_window(CText::Null), 0);
    assert_eq!(t.ax25_config_get_paclen(CText::Undecodable), 0);
}

#[test]
fn ports_are_walked_in_order() {
    let t = table();
    assert_eq!(t.ax25_config_get_next(CText::Null), Some("radio"));
    assert_eq!(t.ax25_config_get_next(CText::Text("radio")), Some("hf"));
    assert_eq!(t.ax25_config_get_next(CText::Text("hf")), Some("144"));
    assert_eq!(t.ax25_config_get_next(CText::Text("144")), None);
    assert_eq!(t.ax25_config_get_next(CText::Text("zz")), None);
    assert_eq!(t.ax25_config_get_next(CText::Undecodable), None);
    assert_eq!(PortTable::new().ax25_config_get_next(CText::Null), None);
}

#[test]
fn devices_are_port_names_to_the_letter() {
    let t = table();
    assert_eq!(t.ax25_config_get_name(CText::Text("radio")), Some("radio"));
    assert_eq!(t.ax25_config_get_name(CText::Text("Radio")), None);
    assert_eq!(t.ax25_config_get_name(CText::Null), None);
}

#[test]
fn ports_are_found_by_address() {
    let t = table();
    let a = |call: &str| Ax25Address { ax25_call: encode_entry(call).unwrap() };
    assert_eq!(t.ax25_config_get_port(Some(&a("M0LTE-1"))), Some("radio"));
    assert_eq!(t.ax25_config_get_port(Some(&a("GB7RDG"))), Some("hf"));
    assert_eq!(t.ax25_config_get_port(Some(&a("M0LTE-2"))), None);
    assert_eq!(t.ax25_config_get_port(Some(&null_ax25_address())), Some("*"));
    assert_eq!(t.ax25_config_get_port(None), None);
}

#[test]
fn a_callsign_is_found_before_the_ports_were_loaded() {
    let axports = "radio M0LTE-1 9600 255 4 d\nhf G0ABC 1200 255 4 d\n";
    let mut calls = CallTable::new();
    let mut ports = PortTable::new();
    // An override loads nothing, nor does an entry of the user load the ports.
    let r = get_call_loading(Some("M0OVR"), &mut calls, Some("7 G0XYZ"), &mut ports, Some(axports), 7);
    assert_eq!(r.as_deref(), Some("M0OVR"));
    let r = get_call_loading(Some(""), &mut calls, Some("8 G0XYZ"), &mut ports, Some(axports), 8);
    assert_eq!(r.as_deref(), Some("G0XYZ"));
    assert_eq!(ports.len(), 0);
    // Nothing at all.
    assert_eq!(get_call_loading(None, &mut calls, None, &mut ports, None, 7), None);
    assert_eq!(get_call_loading(None, &mut calls, None, &mut ports, Some("# none"), 7), None);
    // The first port is the last resort, and what was loaded stays.
    let r = get_call_loading(None, &mut calls, None, &mut ports, Some(axports), 7);
    assert_eq!(r.as_deref(), Some("M0LTE-1"));
    assert_eq!(ports.len(), 2);
    let r = get_call_loading(None, &mut calls, Some("7 M0AAA"), &mut ports, Some("p M0BBB 1 1 1 d"), 7);
    assert_eq!(r.as_deref(), Some("M0LTE-1"));
}

#[test]
fn later_lines_keep_earlier_ports() {
    let first = "radio M0LTE-1 9600 255 4 d\n";
    let both = "radio M0LTE-1 9600 255 4 d\nRADIO G0ABC 1 1 1 e\nhf M0LTE-1 1 1 1 f\nx G0XYZ 1 1 1 g\n";
    assert_eq!(parse_axports(both)[..1], parse_axports(first)[..]);
    assert_eq!(parse_axports(both).len(), 2);
}

#[test]
fn a_walk_visits_each_port_once() {
    let mut t = PortTable::new();
    t.ax25_config_load_ports(Some("a M0LTE 1 1 1 d\nb G0ABC 1 1 1 d\nc G0XYZ 1 1 1 d\n"));
    let mut seen = Vec::new();
    let mut name = t.ax25_config_get_next(CText::Null);
    while let Some(n) = name {
        seen.push(n);
        name = t.ax25_config_get_next(CText::Text(n));
    }
    assert_eq!(seen, vec!["a", "b", "c"]);
}

#[test]
fn no_ssid_is_ssid_zero() {
    assert!(is_same_call("m0lte-0", "M0LTE"));
    assert!(is_same_call("M0LTE-1", "m0lte-1"));
    assert!(!is_same_call("M0LTE-1", "M0LTE"));
    assert!(!is_same_call("M0LTE-00", "M0LTE"));
    assert!(!is_same_call("A-B-0", "A-B"));
}

#[test]
fn a_users_callsign_is_resolved_in_order() {
    let ports = table();
    let mut calls = CallTable::new();
    calls.load_calls(None);
    assert_eq!(get_call(None, &calls, &ports, 1000), Some("M0LTE-1"));
    calls.load_calls(Some("1000 G0XYZ\n1001 G0ABC\n"));
    calls.load_calls(Some("1000 M0AAA\n"));
    assert_eq!(get_call(None, &calls, &ports, 1000), Some("G0XYZ"));
    assert_eq!(get_call(Some(""), &calls, &ports, 1001), Some("G0ABC"));
    assert_eq!(get_call(Some("M0OVR"), &calls, &ports, 1001), Some("M0OVR"));
    assert_eq!(get_call(None, &calls, &ports, 5), Some("M0LTE-1"));
    assert_eq!(get_call(None, &calls, &PortTable::new(), 5), None);
}

#[test]
fn paths_have_defaults() {
    assert_eq!(axports_path(None), "/etc/ax25/axports");
    assert_eq!(axports_path(Some("/tmp/p".to_string())), "/tmp/p");
    assert_eq!(calls_path(None), "/etc/ax25/ax25_calls");
    assert_eq!(calls_path(Some("/tmp/c".to_string())), "/tmp/c");
}

#[test]
fn rose_addresses_round_trip() {
    let mut buf = [0u8; 5];
    assert_eq!(rose_aton(Some("0123456789"), &mut buf), 0);
    assert_eq!(buf, [0x01, 0x23, 0x45, 0x67, 0x89]);
    let a = RoseAddress { rose_addr: buf };
    assert_eq!(rose_ntoa(Some(&a)), "0123456789");
    assert_eq!(rose_ntoa(None), "");
    // Halves above nine go on behind the digits.
    assert_eq!(rose_ntoa(Some(&RoseAddress { rose_addr: [0xAF, 0, 0, 0, 0] })), ":?00000000");
    for bad in ["", "123456789", "01234567890", "012345678x", "\u{e9}01234567"] {
        assert_eq!(rose_aton(Some(bad), &mut buf), -1);
    }
    assert_eq!(rose_aton(None, &mut buf), -1);
    assert_eq!(buf, [0x01, 0x23, 0x45, 0x67, 0x89]);
    let b = RoseAddress { rose_addr: [0x01, 0x23, 0x45, 0x67, 0x88] };
    assert_eq!(rose_cmp(Some(&a), Some(&a)), 0);
    assert_eq!(rose_cmp(Some(&a), Some(&b)), 1);
    assert_eq!(rose_cmp(None, Some(&b)), 1);
    assert_eq!(rose_cmp(Some(&a), None), 1);
}
