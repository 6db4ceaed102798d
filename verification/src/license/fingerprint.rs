//! The machine fingerprint: hardware and system identifiers, and the SHA-256 id
//! computed from them.

use vstd::prelude::*;
use vstd::utf8::encode_utf8;
use vstd::string::StringSliceAdditionalSpecFns;
use sha2::{Digest, Sha256};
use crate::text::{lemma_hex_lower_len, hex_lower, hex_upper_fixed, has_substring, push_hex_lower, push_hex_upper_fixed, text_contains, text_eq};

verus! {

/// One identifier of the machine.
#[derive(Debug)]
pub struct FingerprintComponent {
    /// "MachineGuid", "WindowsProductId", "CpuId", "MotherboardSerial" or "DiskSerial".
    pub kind: String,
    pub value: String,
}

/// The fingerprint: the id (SHA-256 over all components) and the components.
#[derive(Debug)]
pub struct MachineFingerprint {
    pub id: String,
    pub components: Vec<FingerprintComponent>,
    pub component_count: usize,
}

/// A component as (kind, value).
pub type ComponentView = (Seq<char>, Seq<char>);

pub open spec fn component_view(c: FingerprintComponent) -> ComponentView {
    (c.kind@, c.value@)
}

pub open spec fn components_view(v: Seq<FingerprintComponent>) -> Seq<ComponentView> {
    v.map_values(|c: FingerprintComponent| component_view(c))
}

/// What the machine reports, as read from the registry, the processor and WMI.
pub struct FingerprintSources {
    /// `HKLM\SOFTWARE\Microsoft\Cryptography\MachineGuid`, where it could be read.
    pub machine_guid: Option<String>,
    /// `HKLM\SOFTWARE\Microsoft\Windows NT\CurrentVersion\ProductId`, where it could be read.
    pub product_id: Option<String>,
    /// EAX and ECX of CPUID leaf 1, on x86-64.
    pub cpu_id: Option<(u32, u32)>,
    /// The output of the WMI query for `Win32_BaseBoard.SerialNumber`, where it ran.
    pub board_serial: Option<Vec<u8>>,
    /// The output of the WMI query for `Win32_DiskDrive.SerialNumber`, where it ran.
    pub disk_serial: Option<Vec<u8>>,
}

/// Unicode's White_Space characters.
pub open spec fn is_white_space(c: char) -> bool {
    let v = c as u32;
    (0x09 <= v <= 0x0D) || v == 0x20 || v == 0x85 || v == 0xA0 || v == 0x1680 || (0x2000 <= v <= 0x200A) || v
        == 0x2028 || v == 0x2029 || v == 0x202F || v == 0x205F || v == 0x3000
}

/// The text without its leading white space.
pub open spec fn trim_start(text: Seq<char>) -> Seq<char>
    decreases text.len(),
{
    if text.len() > 0 && is_white_space(text[0]) {
        trim_start(text.drop_first())
    } else {
        text
    }
}

/// The text without its trailing white space.
pub open spec fn trim_end(text: Seq<char>) -> Seq<char>
    decreases text.len(),
{
    if text.len() > 0 && is_white_space(text.last()) {
        trim_end(text.drop_last())
    } else {
        text
    }
}

/// The text without leading and trailing white space.
pub open spec fn trimmed(text: Seq<char>) -> Seq<char> {
    trim_end(trim_start(text))
}

/// The text of some bytes read as UTF-8, invalid sequences replaced.
pub uninterp spec fn utf8_lossy(bytes: Seq<u8>) -> Seq<char>;

/// The SHA-256 digest of some bytes.
pub uninterp spec fn sha256(bytes: Seq<u8>) -> Seq<u8>;

fn white_space_char(c: char) -> (r: bool)
    ensures
        r == is_white_space(c),
{
    let v = c as u32;
    (0x09 <= v && v <= 0x0D) || v == 0x20 || v == 0x85 || v == 0xA0 || v == 0x1680 || (0x2000 <= v && v <= 0x200A)
        || v == 0x2028 || v == 0x2029 || v == 0x202F || v == 0x205F || v == 0x3000
}

/// Leading white space up to `i` can be dropped before trimming the start.
proof fn lemma_trim_start_from(text: Seq<char>, i: int)
    requires
        0 <= i <= text.len(),
        forall|k: int| 0 <= k < i ==> is_white_space(#[trigger] text[k]),
    ensures
        trim_start(text) == trim_start(text.subrange(i, text.len() as int)),
    decreases i,
{
    if i > 0 {
        lemma_trim_start_from(text.drop_first(), i - 1);
        assert(text.drop_first().subrange(i - 1, text.drop_first().len() as int) =~= text.subrange(i, text.len() as int));
    } else {
        assert(text.subrange(0, text.len() as int) =~= text);
    }
}

/// Trailing white space from `j` on can be dropped before trimming the end.
proof fn lemma_trim_end_to(text: Seq<char>, j: int)
    requires
        0 <= j <= text.len(),
        forall|k: int| j <= k < text.len() ==> is_white_space(#[trigger] text[k]),
    ensures
        trim_end(text) == trim_end(text.subrange(0, j)),
    decreases text.len() - j,
{
    if j < text.len() {
        lemma_trim_end_to(text.drop_last(), j);
        assert(text.drop_last().subrange(0, j) =~= text.subrange(0, j));
    } else {
        assert(text.subrange(0, j) =~= text);
    }
}

/// The text without the leading and trailing characters that Unicode marks
/// White_Space (what `str::trim` takes away), as a `String`.
pub fn trim_text(s: &str) -> (r: String)
    ensures
        r@ == trimmed(s@),
{
    let n = s.unicode_len();
    let mut i: usize = 0;
    while i < n && white_space_char(s.get_char(i))
        invariant
            n == s@.len(),
            i <= n,
            forall|k: int| 0 <= k < i ==> is_white_space(#[trigger] s@[k]),
        decreases n - i,
    {
        i = i + 1;
    }
    let ghost rest = s@.subrange(i as int, n as int);
    proof {
        lemma_trim_start_from(s@, i as int);
        assert(trim_start(rest) == rest);
    }
    let mut j: usize = n;
    while j > i && white_space_char(s.get_char(j - 1))
        invariant
            n == s@.len(),
            i <= j <= n,
            rest == s@.subrange(i as int, n as int),
            forall|k: int| j <= k < n ==> is_white_space(#[trigger] s@[k]),
        decreases j,
    {
        j = j - 1;
    }
    proof {
        assert forall|k: int| j - i <= k < rest.len() implies is_white_space(#[trigger] rest[k]) by {
            assert(rest[k] == s@[k + i]);
        }
        lemma_trim_end_to(rest, j - i);
        assert(rest.subrange(0, j - i) =~= s@.subrange(i as int, j as int));
        let kept = s@.subrange(i as int, j as int);
        if kept.len() > 0 {
            assert(kept.last() == s@[j - 1]);
        }
    }
    String::from_str(s.substring_char(i, j))
}

/// `String::from_utf8_lossy`, into a `String`. The contract names the result.
#[verifier::external_body]
fn lossy_text(bytes: &[u8]) -> (r: String)
    ensures
        r@ == utf8_lossy(bytes@),
{
    String::from_utf8_lossy(bytes).to_string()
}

/// `Sha256::digest`: the 32-byte digest. The contract names it; SHA-256 is not restated.
#[verifier::external_body]
fn sha256_digest(data: &[u8]) -> (r: Vec<u8>)
    ensures
        r@ == sha256(data@),
        r@.len() == 32,
{
    Sha256::digest(data).to_vec()
}

/// A registry value is kept, trimmed, unless it is empty or a placeholder.
pub open spec fn accepted_registry_value(raw: Seq<char>) -> Option<Seq<char>> {
    let t = trimmed(raw);
    if t.len() == 0 || t == "None"@ || t == "To be filled by O.E.M."@ {
        None
    } else {
        Some(t)
    }
}

/// A WMI answer is kept, trimmed, unless it is empty or a vendor placeholder.
pub open spec fn accepted_wmi_output(out: Seq<u8>) -> Option<Seq<char>> {
    let t = trimmed(utf8_lossy(out));
    if t.len() == 0 || t == "None"@ || has_substring(t, "To be filled"@) || has_substring(t, "Default string"@)
        || has_substring(t, "Not Specified"@) {
        None
    } else {
        Some(t)
    }
}

pub open spec fn opt_text_view(o: Option<String>) -> Option<Seq<char>> {
    match o {
        Some(s) => Some(s@),
        None => None,
    }
}

/// Filters a registry value.
pub fn accept_registry_value(raw: &str) -> (r: Option<String>)
    ensures
        opt_text_view(r) == accepted_registry_value(raw@),
{
    let t = trim_text(raw);
    if t.as_str().unicode_len() == 0 || text_eq(t.as_str(), "None") || text_eq(t.as_str(), "To be filled by O.E.M.") {
        None
    } else {
        Some(t)
    }
}

/// Filters the output of a WMI query.
pub fn accept_wmi_output(out: &[u8]) -> (r: Option<String>)
    ensures
        opt_text_view(r) == accepted_wmi_output(out@),
{
    let text = lossy_text(out);
    let t = trim_text(text.as_str());
    if t.as_str().unicode_len() == 0 || text_eq(t.as_str(), "None") || text_contains(t.as_str(), "To be filled")
        || text_contains(t.as_str(), "Default string") || text_contains(t.as_str(), "Not Specified") {
        None
    } else {
        Some(t)
    }
}

/// EAX then ECX, each as 8 upper-case hexadecimal digits.
pub open spec fn cpu_text(eax: u32, ecx: u32) -> Seq<char> {
    hex_upper_fixed(eax as nat, 8) + hex_upper_fixed(ecx as nat, 8)
}

/// The CPU id component's value.
pub fn cpu_id_text(eax: u32, ecx: u32) -> (r: String)
    ensures
        r@ == cpu_text(eax, ecx),
{
    let mut r = String::new();
    push_hex_upper_fixed(&mut r, eax as u64, 8);
    push_hex_upper_fixed(&mut r, ecx as u64, 8);
    r
}

pub open spec fn opt_component(kind: Seq<char>, v: Option<Seq<char>>) -> Seq<ComponentView> {
    match v {
        Some(x) => seq![(kind, x)],
        None => seq![],
    }
}

/// The components the sources give, in the order MachineGuid, WindowsProductId,
/// CpuId, MotherboardSerial, DiskSerial; missing or rejected ones are left out.
pub open spec fn source_components(
    guid: Option<Seq<char>>,
    product: Option<Seq<char>>,
    cpu: Option<(u32, u32)>,
    board: Option<Seq<u8>>,
    disk: Option<Seq<u8>>,
) -> Seq<ComponentView> {
    opt_component("MachineGuid"@, match guid { Some(g) => accepted_registry_value(g), None => None })
        + opt_component("WindowsProductId"@, match product { Some(p) => accepted_registry_value(p), None => None })
        + opt_component("CpuId"@, match cpu { Some((a, c)) => Some(cpu_text(a, c)), None => None })
        + opt_component("MotherboardSerial"@, match board { Some(b) => accepted_wmi_output(b), None => None })
        + opt_component("DiskSerial"@, match disk { Some(d) => accepted_wmi_output(d), None => None })
}

/// Lexicographic order of texts by code point (which is the byte order of their UTF-8).
pub open spec fn chars_le(a: Seq<char>, b: Seq<char>) -> bool
    decreases a.len(),
{
    if a.len() == 0 {
        true
    } else if b.len() == 0 {
        false
    } else if (a[0] as u32) < (b[0] as u32) {
        true
    } else if (a[0] as u32) > (b[0] as u32) {
        false
    } else {
        chars_le(a.drop_first(), b.drop_first())
    }
}

/// Places `x` after every component whose kind does not sort after its own.
pub open spec fn insert_by_kind(s: Seq<ComponentView>, x: ComponentView) -> Seq<ComponentView>
    decreases s.len(),
{
    if s.len() == 0 {
        seq![x]
    } else if chars_le(s.last().0, x.0) {
        s.push(x)
    } else {
        insert_by_kind(s.drop_last(), x).push(s.last())
    }
}

/// Stable sort by kind.
pub open spec fn sort_by_kind(s: Seq<ComponentView>) -> Seq<ComponentView>
    decreases s.len(),
{
    if s.len() == 0 {
        seq![]
    } else {
        insert_by_kind(sort_by_kind(s.drop_last()), s.last())
    }
}

/// "kind:value".
pub open spec fn component_text(c: ComponentView) -> Seq<char> {
    c.0 + ":"@ + c.1
}

/// The component texts joined by "|".
pub open spec fn joined(s: Seq<ComponentView>) -> Seq<char>
    decreases s.len(),
{
    if s.len() == 0 {
        seq![]
    } else if s.len() == 1 {
        component_text(s[0])
    } else {
        joined(s.drop_last()) + "|"@ + component_text(s.last())
    }
}

/// The id: lower-case hexadecimal SHA-256 of the joined components sorted by kind.
pub open spec fn fingerprint_id(s: Seq<ComponentView>) -> Seq<char> {
    hex_lower(sha256(encode_utf8(joined(sort_by_kind(s)))))
}

/// Whether `a` sorts before or together with `b`.
pub fn text_le(a: &str, b: &str) -> (r: bool)
    ensures
        r == chars_le(a@, b@),
{
    let n = a.unicode_len();
    let m = b.unicode_len();
    let mut i: usize = 0;
    assert(a@.skip(0) =~= a@ && b@.skip(0) =~= b@);
    while i < n && i < m
        invariant
            n == a@.len(),
            m == b@.len(),
            i <= n,
            i <= m,
            chars_le(a@, b@) == chars_le(a@.skip(i as int), b@.skip(i as int)),
        decreases n - i,
    {
        let ca = a.get_char(i);
        let cb = b.get_char(i);
        assert(a@.skip(i as int)[0] == ca && b@.skip(i as int)[0] == cb);
        if (ca as u32) < (cb as u32) {
            return true;
        }
        if (ca as u32) > (cb as u32) {
            return false;
        }
        assert(a@.skip(i as int).drop_first() =~= a@.skip(i + 1));
        assert(b@.skip(i as int).drop_first() =~= b@.skip(i + 1));
        i = i + 1;
    }
    if i == n {
        assert(a@.skip(i as int).len() == 0);
        true
    } else {
        assert(b@.skip(i as int).len() == 0);
        false
    }
}

fn copy_component(c: &FingerprintComponent) -> (r: FingerprintComponent)
    ensures
        component_view(r) == component_view(*c),
{
    FingerprintComponent { kind: c.kind.clone(), value: c.value.clone() }
}

proof fn lemma_insert_kind_at(s: Seq<ComponentView>, x: ComponentView, p: int)
    requires
        0 <= p <= s.len(),
        forall|j: int| p <= j < s.len() ==> !chars_le(#[trigger] s[j].0, x.0),
        p == 0 || chars_le(s[p - 1].0, x.0),
    ensures
        insert_by_kind(s, x) == s.take(p).push(x) + s.skip(p),
    decreases s.len(),
{
    if s.len() == 0 {
        assert(s.take(p).push(x) + s.skip(p) =~= seq![x]);
    } else if p == s.len() {
        assert(s.take(p).push(x) + s.skip(p) =~= s.push(x));
    } else {
        lemma_insert_kind_at(s.drop_last(), x, p);
        assert(s.drop_last().take(p).push(x) + s.drop_last().skip(p) + seq![s.last()] =~= s.take(p).push(x)
            + s.skip(p));
    }
}

/// Copies of the components, sorted by kind (stably).
pub fn sorted_by_kind(v: &Vec<FingerprintComponent>) -> (r: Vec<FingerprintComponent>)
    ensures
        components_view(r@) == sort_by_kind(components_view(v@)),
{
    let ghost cv = components_view(v@);
    let mut out: Vec<FingerprintComponent> = Vec::new();
    let mut k: usize = 0;
    while k < v.len()
        invariant
            cv == components_view(v@),
            k <= v@.len(),
            components_view(out@) == sort_by_kind(cv.take(k as int)),
        decreases v@.len() - k,
    {
        let x = copy_component(&v[k]);
        let mut p: usize = out.len();
        while p > 0 && !text_le(out[p - 1].kind.as_str(), x.kind.as_str())
            invariant
                p <= out@.len(),
                forall|j: int| p <= j < out@.len() ==> !chars_le(#[trigger] out@[j].kind@, x.kind@),
            decreases p,
        {
            p = p - 1;
        }
        proof {
            let ov = components_view(out@);
            assert forall|j: int| p <= j < ov.len() implies !chars_le(#[trigger] ov[j].0, component_view(x).0) by {
                assert(ov[j].0 == out@[j].kind@);
            }
            if p > 0 {
                assert(ov[p - 1].0 == out@[p - 1].kind@);
            }
            lemma_insert_kind_at(ov, component_view(x), p as int);
            assert(cv.take(k + 1).drop_last() =~= cv.take(k as int));
        }
        let ghost before = components_view(out@);
        let ghost xv = component_view(x);
        out.insert(p, x);
        assert(components_view(out@) =~= before.take(p as int).push(xv) + before.skip(p as int));
        k = k + 1;
    }
    assert(cv.take(k as int) =~= cv);
    out
}

/// The components joined as "kind:value" texts separated by "|".
pub fn join_components(v: &Vec<FingerprintComponent>) -> (r: String)
    ensures
        r@ == joined(components_view(v@)),
{
    let ghost cv = components_view(v@);
    let mut r = String::new();
    let mut i: usize = 0;
    while i < v.len()
        invariant
            cv == components_view(v@),
            i <= v@.len(),
            r@ == joined(cv.take(i as int)),
        decreases v@.len() - i,
    {
        let ghost before = r@;
        if i > 0 {
            r.append("|");
        }
        r.append(v[i].kind.as_str());
        r.append(":");
        r.append(v[i].value.as_str());
        proof {
            let t = cv.take(i + 1);
            assert(t.drop_last() =~= cv.take(i as int));
            assert(t.last() == cv[i as int]);
            if i == 0 {
                assert(r@ =~= component_text(t[0]));
            } else {
                assert(r@ =~= before + "|"@ + component_text(t.last()));
            }
        }
        i = i + 1;
    }
    assert(cv.take(i as int) =~= cv);
    r
}

/// The id of a list of components.
pub fn fingerprint_id_of(v: &Vec<FingerprintComponent>) -> (r: String)
    ensures
        r@ == fingerprint_id(components_view(v@)),
        r@.len() == 64,
{
    let sorted = sorted_by_kind(v);
    let raw = join_components(&sorted);
    let digest = sha256_digest(raw.as_str().as_bytes());
    let mut id = String::new();
    push_hex_lower(&mut id, digest.as_slice());
    proof {
        lemma_hex_lower_len(digest@);
    }
    id
}

pub open spec fn fingerprint_view_ok(f: MachineFingerprint, comps: Seq<ComponentView>) -> bool {
    &&& components_view(f.components@) == comps
    &&& f.id@ == fingerprint_id(comps)
    &&& f.component_count == comps.len()
    &&& f.id@.len() == 64
}

fn push_component(v: &mut Vec<FingerprintComponent>, kind: &str, value: Option<String>)
    ensures
        components_view(final(v)@) == components_view(old(v)@) + opt_component(kind@, opt_text_view(value)),
{
    let ghost before = components_view(v@);
    match value {
        Some(x) => {
            v.push(FingerprintComponent { kind: String::from_str(kind), value: x });
            assert(components_view(v@) =~= before + opt_component(kind@, opt_text_view(value)));
        },
        None => {
            assert(components_view(v@) =~= before + opt_component(kind@, opt_text_view(value)));
        },
    }
}

/// The fingerprint of a Windows machine from what it reports.
pub fn generate_fingerprint(src: &FingerprintSources) -> (r: MachineFingerprint)
    ensures
        fingerprint_view_ok(
            r,
            source_components(
                opt_text_view(src.machine_guid),
                opt_text_view(src.product_id),
                src.cpu_id,
                match src.board_serial {
                    Some(b) => Some(b@),
                    None => None,
                },
                match src.disk_serial {
                    Some(d) => Some(d@),
                    None => None,
                },
            ),
        ),
{
    let mut components: Vec<FingerprintComponent> = Vec::new();
    let guid = match &src.machine_guid {
        Some(g) => accept_registry_value(g.as_str()),
        None => None,
    };
    push_component(&mut components, "MachineGuid", guid);
    let product = match &src.product_id {
        Some(p) => accept_registry_value(p.as_str()),
        None => None,
    };
    push_component(&mut components, "WindowsProductId", product);
    let cpu = match src.cpu_id {
        Some((a, c)) => Some(cpu_id_text(a, c)),
        None => None,
    };
    push_component(&mut components, "CpuId", cpu);
    let board = match &src.board_serial {
        Some(b) => accept_wmi_output(b.as_slice()),
        None => None,
    };
    push_component(&mut components, "MotherboardSerial", board);
    let disk = match &src.disk_serial {
        Some(d) => accept_wmi_output(d.as_slice()),
        None => None,
    };
    push_component(&mut components, "DiskSerial", disk);
    assert(components_view(components@) =~= seq![] + opt_component("MachineGuid"@, opt_text_view(guid))
        + opt_component("WindowsProductId"@, opt_text_view(product)) + opt_component("CpuId"@, opt_text_view(cpu))
        + opt_component("MotherboardSerial"@, opt_text_view(board)) + opt_component("DiskSerial"@, opt_text_view(disk)));
    let id = fingerprint_id_of(&components);
    let component_count = components.len();
    MachineFingerprint { id, components, component_count }
}

/// The fingerprint used where the machine cannot be read (development builds on
/// other systems).
pub fn dev_fingerprint() -> (r: MachineFingerprint)
    ensures
        r.id@ == "dev-fingerprint-non-windows"@,
        components_view(r.components@) == seq![("DevMode"@, "non-windows"@)],
        r.component_count == 1,
{
    let mut components: Vec<FingerprintComponent> = Vec::new();
    components.push(
        FingerprintComponent { kind: String::from_str("DevMode"), value: String::from_str("non-windows") },
    );
    assert(components_view(components@) =~= seq![("DevMode"@, "non-windows"@)]);
    MachineFingerprint { id: String::from_str("dev-fingerprint-non-windows"), components, component_count: 1 }
}

proof fn lemma_chars_le_refl(a: Seq<char>)
    ensures
        chars_le(a, a),
    decreases a.len(),
{
    if a.len() > 0 {
        lemma_chars_le_refl(a.drop_first());
    }
}

proof fn lemma_chars_le_total(a: Seq<char>, b: Seq<char>)
    ensures
        chars_le(a, b) || chars_le(b, a),
    decreases a.len(),
{
    if a.len() > 0 && b.len() > 0 && (a[0] as u32) == (b[0] as u32) {
        lemma_chars_le_total(a.drop_first(), b.drop_first());
    }
}

proof fn lemma_chars_le_trans(a: Seq<char>, b: Seq<char>, c: Seq<char>)
    requires
        chars_le(a, b),
        chars_le(b, c),
    ensures
        chars_le(a, c),
    decreases a.len(),
{
    if a.len() > 0 && b.len() > 0 && c.len() > 0 && (a[0] as u32) == (b[0] as u32) && (b[0] as u32) == (c[0] as u32) {
        lemma_chars_le_trans(a.drop_first(), b.drop_first(), c.drop_first());
    }
}

proof fn lemma_chars_le_antisym(a: Seq<char>, b: Seq<char>)
    requires
        chars_le(a, b),
        chars_le(b, a),
    ensures
        a == b,
    decreases a.len(),
{
    if a.len() > 0 && b.len() > 0 {
        lemma_chars_le_antisym(a.drop_first(), b.drop_first());
        vstd::utf8::char_u32_cast(a[0], a[0] as u32);
        vstd::utf8::char_u32_cast(b[0], b[0] as u32);
        assert(a[0] == b[0]);
        assert forall|i: int| 0 <= i < a.len() implies a[i] == b[i] by {
            if i > 0 {
                assert(a[i] == a.drop_first()[i - 1]);
                assert(b[i] == b.drop_first()[i - 1]);
            }
        }
        assert(a =~= b);
    } else {
        assert(a =~= b);
    }
}

/// Components in order of their kinds.
pub open spec fn kind_sorted(s: Seq<ComponentView>) -> bool {
    forall|i: int, j: int| 0 <= i < j < s.len() ==> chars_le(#[trigger] s[i].0, #[trigger] s[j].0)
}

/// No two components of one kind.
pub open spec fn distinct_kinds(s: Seq<ComponentView>) -> bool {
    forall|i: int, j: int| 0 <= i < j < s.len() ==> #[trigger] s[i].0 != #[trigger] s[j].0
}

proof fn lemma_insert_kind_elems(s: Seq<ComponentView>, x: ComponentView)
    ensures
        insert_by_kind(s, x).len() == s.len() + 1,
        insert_by_kind(s, x).to_multiset() == s.to_multiset().insert(x),
    decreases s.len(),
{
    broadcast use vstd::seq_lib::group_seq_properties;
    if s.len() == 0 {
        assert(seq![x] =~= s.push(x));
    } else if !chars_le(s.last().0, x.0) {
        let t = s.drop_last();
        lemma_insert_kind_elems(t, x);
        assert(s =~= t.push(s.last()));
        assert(insert_by_kind(t, x).push(s.last()).to_multiset() =~= s.to_multiset().insert(x));
    }
}

/// Every member of `s` is `x` or a member of `t`, where `s` holds `t`'s members and `x`.
proof fn lemma_member_of_insert(s: Seq<ComponentView>, t: Seq<ComponentView>, x: ComponentView, k: int)
    requires
        s.to_multiset() == t.to_multiset().insert(x),
        0 <= k < s.len(),
    ensures
        s[k] == x || exists|m: int| 0 <= m < t.len() && t[m] == s[k],
{
    broadcast use vstd::seq_lib::group_seq_properties;
    let e = s[k];
    assert(s.contains(e));
    assert(s.to_multiset().count(e) > 0);
    if e != x {
        assert(t.to_multiset().count(e) > 0);
        assert(t.contains(e));
    }
}

proof fn lemma_insert_kind_sorted(s: Seq<ComponentView>, x: ComponentView)
    requires
        kind_sorted(s),
    ensures
        kind_sorted(insert_by_kind(s, x)),
    decreases s.len(),
{
    if s.len() > 0 {
        let last = s.last();
        if chars_le(last.0, x.0) {
            let r = s.push(x);
            assert forall|i: int, j: int| 0 <= i < j < r.len() implies chars_le(#[trigger] r[i].0, #[trigger] r[j].0) by {
                if j == s.len() && i < s.len() - 1 {
                    lemma_chars_le_trans(s[i].0, last.0, x.0);
                }
            }
        } else {
            lemma_chars_le_total(last.0, x.0);
            let t = s.drop_last();
            lemma_insert_kind_sorted(t, x);
            lemma_insert_kind_elems(t, x);
            let u = insert_by_kind(t, x);
            let r = u.push(last);
            assert forall|i: int, j: int| 0 <= i < j < r.len() implies chars_le(#[trigger] r[i].0, #[trigger] r[j].0) by {
                if j == u.len() {
                    lemma_member_of_insert(u, t, x, i);
                    if u[i] != x {
                        let m = choose|m: int| 0 <= m < t.len() && t[m] == u[i];
                        assert(s[m] == t[m]);
                        assert(chars_le(s[m].0, s[s.len() - 1].0));
                    }
                } else {
                    assert(r[i] == u[i] && r[j] == u[j]);
                }
            }
        }
    }
}

proof fn lemma_insert_kind_distinct(s: Seq<ComponentView>, x: ComponentView)
    requires
        distinct_kinds(s),
        forall|k: int| 0 <= k < s.len() ==> #[trigger] s[k].0 != x.0,
    ensures
        distinct_kinds(insert_by_kind(s, x)),
    decreases s.len(),
{
    if s.len() > 0 && !chars_le(s.last().0, x.0) {
        let last = s.last();
        let t = s.drop_last();
        assert forall|k: int| 0 <= k < t.len() implies #[trigger] t[k].0 != x.0 by {
            assert(t[k] == s[k]);
        }
        lemma_insert_kind_distinct(t, x);
        lemma_insert_kind_elems(t, x);
        let u = insert_by_kind(t, x);
        let r = u.push(last);
        assert forall|i: int, j: int| 0 <= i < j < r.len() implies #[trigger] r[i].0 != #[trigger] r[j].0 by {
            if j == u.len() {
                lemma_member_of_insert(u, t, x, i);
                if u[i] != x {
                    let m = choose|m: int| 0 <= m < t.len() && t[m] == u[i];
                    assert(s[m] == t[m]);
                    assert(s[m].0 != s[s.len() - 1].0);
                }
            } else {
                assert(r[i] == u[i] && r[j] == u[j]);
            }
        }
    }
}

proof fn lemma_sort_kind(s: Seq<ComponentView>)
    ensures
        kind_sorted(sort_by_kind(s)),
        sort_by_kind(s).to_multiset() == s.to_multiset(),
        distinct_kinds(s) ==> distinct_kinds(sort_by_kind(s)),
    decreases s.len(),
{
    broadcast use vstd::seq_lib::group_seq_properties;
    if s.len() == 0 {
        assert(s =~= seq![]);
    } else {
        let d = s.drop_last();
        lemma_sort_kind(d);
        let t = sort_by_kind(d);
        lemma_insert_kind_sorted(t, s.last());
        lemma_insert_kind_elems(t, s.last());
        assert(s =~= d.push(s.last()));
        if distinct_kinds(s) {
            assert(distinct_kinds(d)) by {
                assert forall|i: int, j: int| 0 <= i < j < d.len() implies #[trigger] d[i].0 != #[trigger] d[j].0 by {
                    assert(d[i] == s[i] && d[j] == s[j]);
                }
            }
            assert forall|k: int| 0 <= k < t.len() implies #[trigger] t[k].0 != s.last().0 by {
                let e = t[k];
                assert(t.contains(e));
                assert(d.to_multiset().count(e) > 0);
                assert(d.contains(e));
                let m = choose|m: int| 0 <= m < d.len() && d[m] == e;
                assert(s[m] == e);
            }
            lemma_insert_kind_distinct(t, s.last());
        }
    }
}

proof fn lemma_sorted_unique(a: Seq<ComponentView>, b: Seq<ComponentView>)
    requires
        kind_sorted(a),
        kind_sorted(b),
        distinct_kinds(a),
        a.to_multiset() == b.to_multiset(),
    ensures
        a == b,
    decreases a.len(),
{
    broadcast use vstd::seq_lib::group_seq_properties;
    broadcast use vstd::multiset::group_multiset_axioms;
    a.to_multiset_ensures();
    b.to_multiset_ensures();
    assert(a.len() == b.len());
    if a.len() > 0 {
        let n = a.len() - 1;
        let x = a.last();
        let y = b.last();
        assert(a.contains(y)) by {
            assert(b.contains(y));
            assert(b.to_multiset().count(y) > 0);
        }
        assert(b.contains(x)) by {
            assert(a.contains(x));
            assert(a.to_multiset().count(x) > 0);
        }
        let i = choose|i: int| 0 <= i < a.len() && a[i] == y;
        let j = choose|j: int| 0 <= j < b.len() && b[j] == x;
        if i != n && j != n {
            assert(chars_le(a[i].0, a[n].0));
            assert(chars_le(b[j].0, b[n].0));
            lemma_chars_le_antisym(x.0, y.0);
            assert(false);
        }
        assert(x == y);
        let a1 = a.drop_last();
        let b1 = b.drop_last();
        assert(a =~= a1.push(x));
        assert(b =~= b1.push(x));
        assert(a1.to_multiset() =~= a.to_multiset().remove(x));
        assert(b1.to_multiset() =~= b.to_multiset().remove(x));
        assert(kind_sorted(a1)) by {
            assert forall|p: int, q: int| 0 <= p < q < a1.len() implies chars_le(#[trigger] a1[p].0, #[trigger] a1[q].0) by {
                assert(a1[p] == a[p] && a1[q] == a[q]);
            }
        }
        assert(kind_sorted(b1)) by {
            assert forall|p: int, q: int| 0 <= p < q < b1.len() implies chars_le(#[trigger] b1[p].0, #[trigger] b1[q].0) by {
                assert(b1[p] == b[p] && b1[q] == b[q]);
            }
        }
        assert(distinct_kinds(a1)) by {
            assert forall|p: int, q: int| 0 <= p < q < a1.len() implies #[trigger] a1[p].0 != #[trigger] a1[q].0 by {
                assert(a1[p] == a[p] && a1[q] == a[q]);
            }
        }
        lemma_sorted_unique(a1, b1);
    } else {
        assert(a =~= b);
    }
}

/// Law (the id does not depend on the order of the components): two lists that hold
/// the same components, no two of one kind, have the same id.
pub proof fn law_fingerprint_order_independent(s1: Seq<ComponentView>, s2: Seq<ComponentView>)
    requires
        s1.to_multiset() == s2.to_multiset(),
        distinct_kinds(s1),
    ensures
        fingerprint_id(s1) == fingerprint_id(s2),
{
    lemma_sort_kind(s1);
    lemma_sort_kind(s2);
    lemma_sorted_unique(sort_by_kind(s1), sort_by_kind(s2));
}

/// Law (the id is taken over the components sorted by kind): what is hashed holds every
/// component once, in order of kind.
pub proof fn law_fingerprint_sorted_by_kind(s: Seq<ComponentView>)
    ensures
        kind_sorted(sort_by_kind(s)),
        sort_by_kind(s).to_multiset() == s.to_multiset(),
{
    lemma_sort_kind(s);
}

} // verus!
