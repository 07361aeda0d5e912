use postcard_infomem::generate_script;
use postcard_infomem::BareAppendConfig;
use postcard_infomem::BareSectionConfig;
use postcard_infomem::HostedConfig;

#[test]
fn generate_hosted_windows_gnu() {
    let cfg = HostedConfig::default().ld_config();

    let lds = generate_script(&cfg, "foo.x");
    assert_eq!(
        &lds,
        "\n/* Generated by postcard_infomem version 0.1.0 */\n\nSECTIONS {\n    . = ALIGN(__section_alignment__);\n    .info : {\n        _sinfo = .;\n        KEEP(*(.info))\n        _einfo = .;\n    } \n} INSERT AFTER .text\n\n\n",
    );
}

#[test]
fn generate_bare_append() {
    let cfg = BareAppendConfig::default().ld_config();

    let lds = generate_script(&cfg, "foo.x");
    assert_eq!(
        &lds,
        "\n/* Generated by postcard_infomem version 0.1.0 */\n\nSECTIONS {\n    \n    .info : {\n        _sinfo = .;\n        KEEP(*(.info))\n        _einfo = .;\n    } > FLASH\n} INSERT AFTER .rodata\n\n\n",
    );
}

#[test]
fn generate_bare_section() {
    let cfg = BareSectionConfig::default()
        .set_max_size(Some(192))
        .set_memory_region("INFOMEM")
        .ld_config();

    let lds = generate_script(&cfg, "foo.x");
    assert!(lds.contains("KEEP(*(.info))"));
    assert!(lds.contains("} > INFOMEM"));
    assert!(lds.contains("ASSERT((_einfo - _sinfo) <= 192"));
    assert!(lds.contains("ERROR(foo.x): Information memory output section is greater than 192 bytes long."));
}

#[test]
fn generate_bare_section_without_limit_has_no_footer() {
    let cfg = BareSectionConfig::default().ld_config();

    let lds = generate_script(&cfg, "foo.x");
    assert!(!lds.contains("ASSERT"));
    assert!(lds.contains("} > INFOMEM"));
}
