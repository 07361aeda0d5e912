//! Linker-script text generation: placing an encoded record into a named
//! memory section is a textual build step, and this module produces that
//! text. Each configuration type describes one placement style; the
//! generated script is specified character for character.

use vstd::prelude::*;
use crate::util::push_str;

verus! {

/// Where the information section is inserted relative to other output.
pub enum InsertType<'a> {
    /// No insertion directive.
    Nowhere,
    /// Insert before the named output section.
    Before(&'a str),
    /// Insert after the named output section.
    After(&'a str),
}

/// A fully resolved linker-script configuration.
pub struct LdConfig<'a> {
    pub inp_section: &'a str,
    pub region: Option<&'a str>,
    pub insert: InsertType<'a>,
    pub max_size: Option<usize>,
    pub alignment: Option<&'a str>,
}

/// Placement into a dedicated memory region of a bare-metal target.
pub struct BareSectionConfig<'a> {
    pub inp_section: &'a str,
    pub region: &'a str,
    pub max_size: Option<usize>,
}

impl<'a> BareSectionConfig<'a> {
    /// Use `sec` as the input section name.
    pub fn set_info_section(self, sec: &'a str) -> (r: Self)
        ensures
            r.inp_section == sec,
            r.region == self.region,
            r.max_size == self.max_size,
    {
        BareSectionConfig { inp_section: sec, ..self }
    }

    /// Use `reg` as the memory region.
    pub fn set_memory_region(self, reg: &'a str) -> (r: Self)
        ensures
            r.region == reg,
            r.inp_section == self.inp_section,
            r.max_size == self.max_size,
    {
        BareSectionConfig { region: reg, ..self }
    }

    /// Limit the section to `size` bytes, or lift the limit.
    pub fn set_max_size(self, size: Option<usize>) -> (r: Self)
        ensures
            r.max_size == size,
            r.inp_section == self.inp_section,
            r.region == self.region,
    {
        BareSectionConfig { max_size: size, ..self }
    }

    /// The resolved configuration this placement style stands for.
    pub fn ld_config(self) -> (r: LdConfig<'a>)
        ensures
            r.inp_section == self.inp_section,
            r.region == Some(self.region),
            r.insert is Nowhere,
            r.max_size == self.max_size,
            r.alignment is None,
    {
        LdConfig {
            inp_section: self.inp_section,
            region: Some(self.region),
            insert: InsertType::Nowhere,
            max_size: self.max_size,
            alignment: None,
        }
    }
}

impl<'a> Default for BareSectionConfig<'a> {
    /// Section `.info`, region `INFOMEM`, no size limit.
    fn default() -> (r: Self)
        ensures
            r.inp_section@ == ".info"@,
            r.region@ == "INFOMEM"@,
            r.max_size is None,
    {
        BareSectionConfig { inp_section: ".info", region: "INFOMEM", max_size: None }
    }
}

/// Placement appended to an existing output section of a bare-metal target.
pub struct BareAppendConfig<'a> {
    pub inp_section: &'a str,
    pub out_section: &'a str,
    pub region: &'a str,
    pub max_size: Option<usize>,
}

impl<'a> BareAppendConfig<'a> {
    /// Use `sec` as the input section name.
    pub fn set_info_section(self, sec: &'a str) -> (r: Self)
        ensures
            r.inp_section == sec,
            r.out_section == self.out_section,
            r.region == self.region,
            r.max_size == self.max_size,
    {
        BareAppendConfig { inp_section: sec, ..self }
    }

    /// Append behind `sec` in the output.
    pub fn set_append_section(self, sec: &'a str) -> (r: Self)
        ensures
            r.out_section == sec,
            r.inp_section == self.inp_section,
            r.region == self.region,
            r.max_size == self.max_size,
    {
        BareAppendConfig { out_section: sec, ..self }
    }

    /// Use `reg` as the memory region.
    pub fn set_memory_region(self, reg: &'a str) -> (r: Self)
        ensures
            r.region == reg,
            r.inp_section == self.inp_section,
            r.out_section == self.out_section,
            r.max_size == self.max_size,
    {
        BareAppendConfig { region: reg, ..self }
    }

    /// Limit the section to `size` bytes, or lift the limit.
    pub fn set_max_size(self, size: Option<usize>) -> (r: Self)
        ensures
            r.max_size == size,
            r.inp_section == self.inp_section,
            r.out_section == self.out_section,
            r.region == self.region,
    {
        BareAppendConfig { max_size: size, ..self }
    }

    /// The resolved configuration this placement style stands for.
    pub fn ld_config(self) -> (r: LdConfig<'a>)
        ensures
            r.inp_section == self.inp_section,
            r.region == Some(self.region),
            r.insert matches InsertType::After(s) && s == self.out_section,
            r.max_size == self.max_size,
            r.alignment is None,
    {
        LdConfig {
            inp_section: self.inp_section,
            region: Some(self.region),
            insert: InsertType::After(self.out_section),
            max_size: self.max_size,
            alignment: None,
        }
    }
}

impl<'a> Default for BareAppendConfig<'a> {
    /// Section `.info` appended after `.rodata` in region `FLASH`, no size
    /// limit.
    fn default() -> (r: Self)
        ensures
            r.inp_section@ == ".info"@,
            r.out_section@ == ".rodata"@,
            r.region@ == "FLASH"@,
            r.max_size is None,
    {
        BareAppendConfig {
            inp_section: ".info",
            out_section: ".rodata",
            region: "FLASH",
            max_size: None,
        }
    }
}

/// Placement for a hosted target whose linker supports insertion after the
/// text section.
pub struct HostedConfig<'a> {
    pub inp_section: &'a str,
}

impl<'a> HostedConfig<'a> {
    /// The resolved configuration this placement style stands for.
    pub fn ld_config(self) -> (r: LdConfig<'a>)
        ensures
            r.inp_section == self.inp_section,
            r.region is None,
            r.insert matches InsertType::After(s) && s@ == ".text"@,
            r.max_size is None,
            r.alignment matches Some(a) && a@ == "__section_alignment__"@,
    {
        LdConfig {
            inp_section: self.inp_section,
            region: None,
            insert: InsertType::After(".text"),
            max_size: None,
            alignment: Some("__section_alignment__"),
        }
    }
}

impl<'a> Default for HostedConfig<'a> {
    /// Section `.info`.
    fn default() -> (r: Self)
        ensures
            r.inp_section@ == ".info"@,
    {
        HostedConfig { inp_section: ".info" }
    }
}

/// The decimal digits of `v`, most significant first.
pub open spec fn spec_decimal(v: nat) -> Seq<char>
    decreases v,
{
    if v < 10 {
        seq![spec_digit(v)]
    } else {
        spec_decimal(v / 10) + seq![spec_digit(v % 10)]
    }
}

/// The character for one decimal digit.
pub open spec fn spec_digit(d: nat) -> char {
    if d == 0 {
        '0'
    } else if d == 1 {
        '1'
    } else if d == 2 {
        '2'
    } else if d == 3 {
        '3'
    } else if d == 4 {
        '4'
    } else if d == 5 {
        '5'
    } else if d == 6 {
        '6'
    } else if d == 7 {
        '7'
    } else if d == 8 {
        '8'
    } else {
        '9'
    }
}

/// Append the decimal digits of `v`.
fn push_decimal(s: &mut String, v: u64)
    ensures
        final(s)@ == old(s)@ + spec_decimal(v as nat),
    decreases v,
{
    if v >= 10 {
        proof {
            assert(v / 10 < v) by (nonlinear_arith)
                requires
                    v >= 10,
            ;
        }
        push_decimal(s, v / 10);
    }
    let d = v % 10;
    proof {
        reveal_strlit("0");
        reveal_strlit("1");
        reveal_strlit("2");
        reveal_strlit("3");
        reveal_strlit("4");
        reveal_strlit("5");
        reveal_strlit("6");
        reveal_strlit("7");
        reveal_strlit("8");
        reveal_strlit("9");
    }
    if d == 0 {
        push_str(s, "0");
    } else if d == 1 {
        push_str(s, "1");
    } else if d == 2 {
        push_str(s, "2");
    } else if d == 3 {
        push_str(s, "3");
    } else if d == 4 {
        push_str(s, "4");
    } else if d == 5 {
        push_str(s, "5");
    } else if d == 6 {
        push_str(s, "6");
    } else if d == 7 {
        push_str(s, "7");
    } else if d == 8 {
        push_str(s, "8");
    } else {
        push_str(s, "9");
    }
    proof {
        assert(s@ =~= old(s)@ + spec_decimal(v as nat));
    }
}

/// The alignment directive of a configuration, empty when none is asked for.
pub open spec fn spec_alignment(cfg: &LdConfig<'_>) -> Seq<char> {
    match cfg.alignment {
        Option::None => Seq::empty(),
        Option::Some(a) => ". = ALIGN("@ + a@ + ");"@,
    }
}

/// The memory-region directive of a configuration, empty when none is asked
/// for.
pub open spec fn spec_region(cfg: &LdConfig<'_>) -> Seq<char> {
    match cfg.region {
        Option::None => Seq::empty(),
        Option::Some(r) => "> "@ + r@,
    }
}

/// The insertion directive of a configuration, empty when none is asked for.
pub open spec fn spec_insert(cfg: &LdConfig<'_>) -> Seq<char> {
    match cfg.insert {
        InsertType::Nowhere => Seq::empty(),
        InsertType::Before(s) => "INSERT BEFORE "@ + s@,
        InsertType::After(s) => "INSERT AFTER "@ + s@,
    }
}

/// The generator tag written at the top of every script.
pub open spec fn spec_header() -> Seq<char> {
    "/* Generated by postcard_infomem version 0.1.0 */"@
}

/// The size-guard footer, empty when no size limit is asked for.
pub open spec fn spec_footer(cfg: &LdConfig<'_>, filename: Seq<char>) -> Seq<char> {
    match cfg.max_size {
        Option::None => Seq::empty(),
        Option::Some(size) => "\nASSERT((_einfo - _sinfo) <= "@ + spec_decimal(size as nat)
            + ", \"\nERROR("@ + filename + "): Information memory output section is greater than "@
            + spec_decimal(size as nat)
            + " bytes long.\nFlashing may overwrite important calibration data. The link has stopped as a precaution.\n\");\n"@,
    }
}

/// The section block of the script.
pub open spec fn spec_body(cfg: &LdConfig<'_>) -> Seq<char> {
    "SECTIONS {\n    "@ + spec_alignment(cfg) + "\n    .info : {\n        _sinfo = .;\n        KEEP(*("@
        + cfg.inp_section@ + "))\n        _einfo = .;\n    } "@ + spec_region(cfg) + "\n} "@
        + spec_insert(cfg)
}

/// The whole script.
pub open spec fn spec_script(cfg: &LdConfig<'_>, filename: Seq<char>) -> Seq<char> {
    "\n"@ + spec_header() + "\n\n"@ + spec_body(cfg) + "\n\n"@ + spec_footer(cfg, filename) + "\n"@
}

/// The generator tag written at the top of every script.
pub fn generate_header() -> (r: String)
    ensures
        r@ == spec_header(),
{
    let mut s = String::new();
    push_str(&mut s, "/* Generated by postcard_infomem version 0.1.0 */");
    proof {
        assert(s@ =~= spec_header());
    }
    s
}

/// The section block of the script: alignment, the information section with
/// its start and end symbols, the region and the insertion directive.
pub fn generate_body(cfg: &LdConfig<'_>) -> (r: String)
    ensures
        r@ == spec_body(cfg),
{
    let mut s = String::new();
    push_str(&mut s, "SECTIONS {\n    ");
    match cfg.alignment {
        None => {},
        Some(a) => {
            push_str(&mut s, ". = ALIGN(");
            push_str(&mut s, a);
            push_str(&mut s, ");");
        },
    }
    push_str(&mut s, "\n    .info : {\n        _sinfo = .;\n        KEEP(*(");
    push_str(&mut s, cfg.inp_section);
    push_str(&mut s, "))\n        _einfo = .;\n    } ");
    match cfg.region {
        None => {},
        Some(reg) => {
            push_str(&mut s, "> ");
            push_str(&mut s, reg);
        },
    }
    push_str(&mut s, "\n} ");
    match cfg.insert {
        InsertType::Nowhere => {},
        InsertType::Before(sec) => {
            push_str(&mut s, "INSERT BEFORE ");
            push_str(&mut s, sec);
        },
        InsertType::After(sec) => {
            push_str(&mut s, "INSERT AFTER ");
            push_str(&mut s, sec);
        },
    }
    proof {
        assert(s@ =~= spec_body(cfg));
    }
    s
}

/// The size-guard footer: a link-time assertion that the information section
/// stayed within its limit.
pub fn generate_footer(cfg: &LdConfig<'_>, filename: &str) -> (r: String)
    ensures
        r@ == spec_footer(cfg, filename@),
{
    let mut s = String::new();
    match cfg.max_size {
        None => {},
        Some(size) => {
            push_str(&mut s, "\nASSERT((_einfo - _sinfo) <= ");
            push_decimal(&mut s, size as u64);
            push_str(&mut s, ", \"\nERROR(");
            push_str(&mut s, filename);
            push_str(&mut s, "): Information memory output section is greater than ");
            push_decimal(&mut s, size as u64);
            push_str(
                &mut s,
                " bytes long.\nFlashing may overwrite important calibration data. The link has stopped as a precaution.\n\");\n",
            );
        },
    }
    proof {
        assert(s@ =~= spec_footer(cfg, filename@));
    }
    s
}

/// The whole linker script for a configuration, named after the file it will
/// be written to.
pub fn generate_script(cfg: &LdConfig<'_>, filename: &str) -> (r: String)
    ensures
        r@ == spec_script(cfg, filename@),
{
    let mut s = String::new();
    push_str(&mut s, "\n");
    let header = generate_header();
    push_str(&mut s, header.as_str());
    push_str(&mut s, "\n\n");
    let body = generate_body(cfg);
    push_str(&mut s, body.as_str());
    push_str(&mut s, "\n\n");
    let footer = generate_footer(cfg, filename);
    push_str(&mut s, footer.as_str());
    push_str(&mut s, "\n");
    proof {
        assert(s@ =~= spec_script(cfg, filename@));
    }
    s
}

} // verus!
