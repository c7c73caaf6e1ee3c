use kstat::wrapper::{cstr, is_c_str};
use kstat::{ByteOrder, Host, Kstat, KstatCtl, KstatError, KstatNamed, KstatValue, KstatWrapper};

fn walk_storage(leading: &[u8]) -> KstatValue {
    let mut raw = [0u8; 16];
    raw[..leading.len()].copy_from_slice(leading);
    KstatValue { raw }
}

fn walk_field(name: &str, leading: &[u8]) -> KstatNamed {
    KstatNamed { name: name.to_string(), data_type: 0, value: walk_storage(leading) }
}

fn walk_group(module: &str, instance: i32, name: &str, data: Option<Vec<KstatNamed>>) -> Kstat {
    Kstat { module: module.to_string(), instance, name: name.to_string(), data }
}

fn walk_host(byte_order: ByteOrder) -> Host {
    Host {
        facility: Some(KstatCtl {
            byte_order,
            chain: vec![
                walk_group("unix", 0, "system_misc", Some(vec![])),
                walk_group(
                    "cpu_info",
                    0,
                    "cpu_info0",
                    Some(vec![
                        walk_field("state", &[1]),
                        walk_field("clock_MHz", &[0x60, 0x09, 0, 0, 0, 0, 0, 0x80]),
                    ]),
                ),
                walk_group("unix", 0, "system_pages", None),
                walk_group("cpu_info", 1, "cpu_info1", Some(vec![walk_field("clock_MHz", &[1])])),
            ],
        }),
    }
}

#[test]
fn open_fails_without_a_facility() {
    let host = Host { facility: None };
    let r = KstatWrapper::open(&host);
    assert!(matches!(r, Err(KstatError::OpenFailed)));
}

#[test]
fn a_fresh_walk_is_unpositioned() {
    let host = walk_host(ByteOrder::Little);
    let mut k = KstatWrapper::open(&host).unwrap();
    assert_eq!(k.module(), None);
    assert_eq!(k.name(), None);
    assert!(k.data_value("clock_MHz").is_none());
    assert_eq!(k.data_long("clock_MHz"), None);
    assert!(!k.step());
    assert_eq!(k.module(), None);
}

#[test]
fn lookup_goes_to_the_first_group_of_the_module() {
    let host = walk_host(ByteOrder::Little);
    let mut k = KstatWrapper::open(&host).unwrap();
    k.lookup(Some("cpu_info"), None);
    assert_eq!(k.module(), Some("cpu_info".to_string()));
    assert_eq!(k.name(), Some("cpu_info0".to_string()));
}

#[test]
fn lookup_by_name_alone() {
    let host = walk_host(ByteOrder::Little);
    let mut k = KstatWrapper::open(&host).unwrap();
    k.lookup(None, Some("system_pages"));
    assert_eq!(k.module(), Some("unix".to_string()));
    assert_eq!(k.name(), Some("system_pages".to_string()));
    k.lookup(None, Some("cpu_info1"));
    assert_eq!(k.module(), Some("cpu_info".to_string()));
    assert_eq!(k.name(), Some("cpu_info1".to_string()));
}

#[test]
fn lookup_by_module_and_name() {
    let host = walk_host(ByteOrder::Little);
    let mut k = KstatWrapper::open(&host).unwrap();
    k.lookup(Some("unix"), Some("system_pages"));
    assert_eq!(k.name(), Some("system_pages".to_string()));
    k.lookup(Some("cpu_info"), Some("system_pages"));
    assert_eq!(k.name(), None);
    assert_eq!(k.module(), None);
}

#[test]
fn lookup_without_filters_goes_to_the_head_of_the_chain() {
    let host = walk_host(ByteOrder::Little);
    let mut k = KstatWrapper::open(&host).unwrap();
    k.lookup(None, None);
    assert_eq!(k.module(), Some("unix".to_string()));
    assert_eq!(k.name(), Some("system_misc".to_string()));
}

#[test]
fn lookup_that_finds_nothing_leaves_the_walk_unpositioned() {
    let host = walk_host(ByteOrder::Little);
    let mut k = KstatWrapper::open(&host).unwrap();
    k.lookup(Some("cpu_info"), None);
    k.lookup(Some("cpu_inf"), None);
    assert_eq!(k.module(), None);
    assert!(!k.step());
    assert!(!k.step());
}

#[test]
fn steps_walk_the_rest_of_the_chain() {
    let host = walk_host(ByteOrder::Little);
    let mut k = KstatWrapper::open(&host).unwrap();
    k.lookup(Some("cpu_info"), None);
    let mut seen = Vec::new();
    while k.step() {
        seen.push((k.module().unwrap(), k.name().unwrap()));
    }
    assert_eq!(
        seen,
        vec![
            ("cpu_info".to_string(), "cpu_info0".to_string()),
            ("unix".to_string(), "system_pages".to_string()),
            ("cpu_info".to_string(), "cpu_info1".to_string()),
        ]
    );
    assert_eq!(k.module(), None);
    assert_eq!(k.name(), None);
}

#[test]
fn steps_end_within_the_length_of_the_chain() {
    let host = walk_host(ByteOrder::Little);
    let mut k = KstatWrapper::open(&host).unwrap();
    let filters: [(Option<&str>, Option<&str>, usize); 6] = [
        (None, None, 4),
        (Some("unix"), None, 4),
        (Some("cpu_info"), None, 3),
        (Some("unix"), Some("system_pages"), 2),
        (None, Some("cpu_info1"), 1),
        (Some("none"), None, 0),
    ];
    for (module, name, arrivals) in filters {
        k.lookup(module, name);
        let mut count = 0;
        while k.step() {
            count += 1;
            assert!(count <= 4);
        }
        assert_eq!(count, arrivals);
        assert!(!k.step());
    }
}

#[test]
fn the_first_step_stays_where_the_lookup_went() {
    let host = walk_host(ByteOrder::Little);
    let mut k = KstatWrapper::open(&host).unwrap();
    k.lookup(Some("unix"), Some("system_pages"));
    assert!(k.step());
    assert_eq!(k.name(), Some("system_pages".to_string()));
    assert!(k.step());
    assert_eq!(k.name(), Some("cpu_info1".to_string()));
    assert!(!k.step());
}

#[test]
fn a_walk_can_start_again_after_it_ended() {
    let host = walk_host(ByteOrder::Little);
    let mut k = KstatWrapper::open(&host).unwrap();
    k.lookup(None, Some("cpu_info1"));
    assert!(k.step());
    assert!(!k.step());
    k.lookup(None, Some("cpu_info1"));
    assert!(k.step());
    assert_eq!(k.name(), Some("cpu_info1".to_string()));
    assert!(!k.step());
}

#[test]
fn a_lookup_in_mid_walk_starts_afresh() {
    let host = walk_host(ByteOrder::Little);
    let mut k = KstatWrapper::open(&host).unwrap();
    k.lookup(None, None);
    assert!(k.step());
    assert!(k.step());
    k.lookup(None, None);
    assert!(k.step());
    assert_eq!(k.name(), Some("system_misc".to_string()));
}

#[test]
fn data_value_finds_a_field_by_name() {
    let host = walk_host(ByteOrder::Little);
    let mut k = KstatWrapper::open(&host).unwrap();
    k.lookup(Some("cpu_info"), None);
    assert!(k.step());
    let field = k.data_value("clock_MHz").unwrap();
    assert_eq!(field.name, "clock_MHz");
    assert_eq!(field.value.raw[..2], [0x60, 0x09]);
    let field = k.data_value("state").unwrap();
    assert_eq!(field.name, "state");
    assert!(k.data_value("clock_mhz").is_none());
    assert!(k.data_value("").is_none());
}

#[test]
fn data_value_is_nothing_where_the_refresh_fails() {
    let host = walk_host(ByteOrder::Little);
    let mut k = KstatWrapper::open(&host).unwrap();
    k.lookup(Some("unix"), Some("system_pages"));
    assert!(k.step());
    assert!(k.data_value("freemem").is_none());
    assert_eq!(k.data_ulong("freemem"), None);
    assert_eq!(k.data_long("freemem"), None);
    assert_eq!(k.data_u32("freemem"), None);
}

#[test]
fn data_value_is_nothing_after_the_walk_ended() {
    let host = walk_host(ByteOrder::Little);
    let mut k = KstatWrapper::open(&host).unwrap();
    k.lookup(None, Some("cpu_info1"));
    assert!(k.step());
    assert_eq!(k.data_long("clock_MHz"), Some(1));
    assert!(!k.step());
    assert_eq!(k.data_long("clock_MHz"), None);
}

#[test]
fn one_field_read_in_each_encoding() {
    let host = walk_host(ByteOrder::Little);
    let mut k = KstatWrapper::open(&host).unwrap();
    k.lookup(Some("cpu_info"), None);
    assert!(k.step());
    assert_eq!(k.data_ulong("clock_MHz"), Some(0x8000_0000_0000_0960));
    assert_eq!(k.data_long("clock_MHz"), Some(-9223372036854773408));
    assert_eq!(k.data_u32("clock_MHz"), Some(2400));
}

#[test]
fn one_field_read_in_each_encoding_on_a_big_endian_host() {
    let host = walk_host(ByteOrder::Big);
    let mut k = KstatWrapper::open(&host).unwrap();
    k.lookup(Some("cpu_info"), None);
    assert!(k.step());
    assert_eq!(k.data_ulong("clock_MHz"), Some(0x6009_0000_0000_0080));
    assert_eq!(k.data_long("clock_MHz"), Some(0x6009_0000_0000_0080));
    assert_eq!(k.data_u32("clock_MHz"), Some(0x6009_0000));
}

#[test]
fn group_names_are_handed_out_as_they_are() {
    let g = walk_group("unix", 7, "system_misc", None);
    assert_eq!(g.module(), "unix");
    assert_eq!(g.name(), "system_misc");
    assert!(!g.read());
    assert!(g.data_lookup(&"nproc".to_string()).is_none());
}

#[test]
fn the_facility_looks_up_by_instance_too() {
    let host = walk_host(ByteOrder::Little);
    let ctl = host.open().unwrap();
    let module = Some("cpu_info".to_string());
    assert_eq!(ctl.lookup(&module, -1, &None), Some(1));
    assert_eq!(ctl.lookup(&module, 0, &None), Some(1));
    assert_eq!(ctl.lookup(&module, 1, &None), Some(3));
    assert_eq!(ctl.lookup(&module, 2, &None), None);
    assert_eq!(ctl.lookup(&None, 1, &None), Some(3));
    assert_eq!(ctl.lookup(&None, -1, &Some("system_pages".to_string())), Some(2));
    assert_eq!(ctl.next(0), Some(1));
    assert_eq!(ctl.next(2), Some(3));
    assert_eq!(ctl.next(3), None);
}

#[test]
fn a_string_with_a_nul_is_no_c_string() {
    assert!(is_c_str(""));
    assert!(is_c_str("cpu_info"));
    assert!(is_c_str("clock_MHz"));
    assert!(is_c_str("a name that is longer than any name of the facility"));
    assert!(is_c_str("na\u{ef}ve \u{2603}"));
    assert!(!is_c_str("\0"));
    assert!(!is_c_str("cpu\0info"));
    assert!(!is_c_str("cpu_info\0"));
    assert!(!is_c_str("\0cpu_info"));
}

#[test]
fn cstr_keeps_the_string() {
    assert_eq!(cstr(None), None);
    assert_eq!(cstr(Some("")), Some(String::new()));
    assert_eq!(cstr(Some("system_misc")), Some("system_misc".to_string()));
}

#[test]
fn opening_a_host_hands_out_its_facility() {
    let host = walk_host(ByteOrder::Big);
    let ctl = host.open().unwrap();
    assert_eq!(ctl.byte_order, ByteOrder::Big);
    assert_eq!(ctl.chain.len(), 4);
    assert!(Host { facility: None }.open().is_none());
}
