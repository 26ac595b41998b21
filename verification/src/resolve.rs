use vstd::prelude::*;

use crate::config::{FIELD_SEP, LINE_SEP};
use crate::mount::opt_view;
use crate::vector::{seqs_of, split_fields, Vec};

verus! {

/// The prefix marking a partition identifier on the kernel command line and
/// in a device's `uevent` attribute.
pub open spec fn partuuid_prefix() -> Seq<u8> {
    seq!['P' as u8, 'A' as u8, 'R' as u8, 'T' as u8, 'U' as u8, 'U' as u8, 'I' as u8, 'D' as u8,
        '=' as u8]
}

/// The `root=` key of the kernel command line.
pub open spec fn root_key() -> Seq<u8> {
    seq!['r' as u8, 'o' as u8, 'o' as u8, 't' as u8, '=' as u8]
}

/// The `init=` key of the kernel command line.
pub open spec fn init_key() -> Seq<u8> {
    seq!['i' as u8, 'n' as u8, 'i' as u8, 't' as u8, '=' as u8]
}

/// Whether `s` begins with `p`.
pub open spec fn has_prefix(s: Seq<u8>, p: Seq<u8>) -> bool {
    s.len() >= p.len() && s.take(p.len() as int) == p
}

/// Whether one byte is ASCII whitespace.
pub open spec fn is_ws_byte(b: u8) -> bool {
    b == 32 || b == 9 || b == 10 || b == 12 || b == 13
}

/// The text with every whitespace byte replaced by a plain blank.
pub open spec fn normalize_ws(s: Seq<u8>) -> Seq<u8> {
    s.map_values(|b: u8| if is_ws_byte(b) { FIELD_SEP } else { b })
}

/// The whitespace-separated tokens of the kernel command line.
pub open spec fn cmdline_tokens(content: Seq<u8>) -> Seq<Seq<u8>> {
    split_fields(normalize_ws(content), FIELD_SEP)
}

/// The value of the latest token `key`-`value` pair carrying the given key;
/// a later occurrence overrides an earlier one.
pub open spec fn last_value_for(tokens: Seq<Seq<u8>>, key: Seq<u8>) -> Option<Seq<u8>>
    decreases tokens.len(),
{
    if tokens.len() == 0 {
        None
    } else if has_prefix(tokens.last(), key) {
        Some(tokens.last().skip(key.len() as int))
    } else {
        last_value_for(tokens.drop_last(), key)
    }
}

/// What this system reads from the kernel command line: the root-device
/// specifier and the fallback init path.
#[derive(Debug)]
pub struct CmdLine {
    pub root: Option<Vec<u8>>,
    pub init: Option<Vec<u8>>,
}

fn is_ws(b: u8) -> (r: bool)
    ensures
        r == is_ws_byte(b),
{
    b == 32 || b == 9 || b == 10 || b == 12 || b == 13
}

/// The command-line text with every whitespace byte replaced by a blank.
fn normalize(content: &Vec<u8>) -> (r: Vec<u8>)
    ensures
        r@ == normalize_ws(content@),
{
    let n: usize = content.len();
    let mut out: Vec<u8> = Vec::default();
    let mut i: usize = 0;
    proof {
        assert(out@ =~= normalize_ws(content@.take(0)));
    }
    while i < n
        invariant
            n == content@.len(),
            i <= n,
            out@ == normalize_ws(content@.take(i as int)),
        decreases n - i,
    {
        let b = *content.get(i);
        if is_ws(b) {
            out.push(FIELD_SEP);
        } else {
            out.push(b);
        }
        proof {
            assert(out@ =~= normalize_ws(content@.take(i + 1)));
        }
        i += 1;
    }
    proof {
        assert(content@.take(n as int) =~= content@);
    }
    out
}

proof fn lemma_last_value_push(tokens: Seq<Seq<u8>>, t: Seq<u8>, key: Seq<u8>)
    ensures
        last_value_for(tokens.push(t), key) == if has_prefix(t, key) {
            Some(t.skip(key.len() as int))
        } else {
            last_value_for(tokens, key)
        },
{
    assert(tokens.push(t).drop_last() =~= tokens);
}

/// Reads the `root=` and `init=` values off the kernel command line; of two
/// occurrences of one key the later wins, and a missing key yields nothing.
pub fn parse_cmdline(content: &Vec<u8>) -> (r: CmdLine)
    ensures
        opt_view(r.root) == last_value_for(cmdline_tokens(content@), root_key()),
        opt_view(r.init) == last_value_for(cmdline_tokens(content@), init_key()),
{
    let normalized = normalize(content);
    let tokens = normalized.split(FIELD_SEP, false);
    let ghost toks = cmdline_tokens(content@);
    let n: usize = tokens.len();
    let mut root: Option<Vec<u8>> = None;
    let mut init: Option<Vec<u8>> = None;
    let mut i: usize = 0;
    proof {
        assert(toks.take(0) =~= Seq::<Seq<u8>>::empty());
    }
    while i < n
        invariant
            n == tokens@.len(),
            toks == cmdline_tokens(content@),
            seqs_of(tokens@) == toks,
            i <= n,
            opt_view(root) == last_value_for(toks.take(i as int), root_key()),
            opt_view(init) == last_value_for(toks.take(i as int), init_key()),
        decreases n - i,
    {
        let tok = tokens.get(i);
        proof {
            assert(toks[i as int] == tokens@[i as int]@);
            assert(toks.take(i + 1) =~= toks.take(i as int).push(tok@));
            lemma_last_value_push(toks.take(i as int), tok@, root_key());
            lemma_last_value_push(toks.take(i as int), tok@, init_key());
        }
        if tok.starts_with(
            ['r' as u8, 'o' as u8, 'o' as u8, 't' as u8, '=' as u8].as_slice(),
        ) {
            proof {
                assert(has_prefix(tok@, root_key()));
            }
            root = Some(tok.suffix(5));
        } else if tok.starts_with(
            ['i' as u8, 'n' as u8, 'i' as u8, 't' as u8, '=' as u8].as_slice(),
        ) {
            proof {
                assert(has_prefix(tok@, init_key()));
            }
            init = Some(tok.suffix(5));
        }
        i += 1;
    }
    proof {
        assert(toks.take(n as int) =~= toks);
    }
    CmdLine { root, init }
}

/// The partition identifier a root specifier asks to resolve: the part after
/// the `PARTUUID=` prefix.  A specifier without the prefix is already a
/// device path and yields nothing; it is used unchanged, and no device scan
/// is made for it.
pub fn partuuid_of(root_spec: &Vec<u8>) -> (r: Option<Vec<u8>>)
    ensures
        has_prefix(root_spec@, partuuid_prefix()) ==> (r matches Some(v) && v@ == root_spec@.skip(
            9,
        )),
        !has_prefix(root_spec@, partuuid_prefix()) ==> r is None,
{
    if root_spec.starts_with(
        ['P' as u8, 'A' as u8, 'R' as u8, 'T' as u8, 'U' as u8, 'U' as u8, 'I' as u8, 'D' as u8,
            '=' as u8].as_slice(),
    ) {
        proof {
            assert(has_prefix(root_spec@, partuuid_prefix()));
        }
        Some(root_spec.suffix(9))
    } else {
        None
    }
}

/// One ASCII letter folded to lower case; any other byte is unchanged.
pub open spec fn ascii_lower(b: u8) -> u8 {
    if 65 <= b <= 90 {
        (b + 32) as u8
    } else {
        b
    }
}

/// Byte equality up to ASCII case.
pub open spec fn eq_ignore_case(a: Seq<u8>, b: Seq<u8>) -> bool {
    a.len() == b.len() && forall|i: int| 0 <= i < a.len() ==> ascii_lower(a[i]) == ascii_lower(b[i])
}

/// `s` with its leading whitespace dropped.
pub open spec fn trim_front(s: Seq<u8>) -> Seq<u8>
    decreases s.len(),
{
    if s.len() > 0 && is_ws_byte(s[0]) {
        trim_front(s.skip(1))
    } else {
        s
    }
}

/// `s` with its trailing whitespace dropped.
pub open spec fn trim_back(s: Seq<u8>) -> Seq<u8>
    decreases s.len(),
{
    if s.len() > 0 && is_ws_byte(s.last()) {
        trim_back(s.drop_last())
    } else {
        s
    }
}

/// `s` with whitespace dropped at both ends.
pub open spec fn trimmed(s: Seq<u8>) -> Seq<u8> {
    trim_back(trim_front(s))
}

/// Whether one line of a `uevent` attribute names the wanted partition
/// identifier: it begins with the `PARTUUID=` prefix and what follows,
/// trimmed, is the needle up to ASCII case.
pub open spec fn uevent_line_matches(line: Seq<u8>, needle: Seq<u8>) -> bool {
    &&& has_prefix(line, partuuid_prefix())
    &&& trimmed(line.skip(9)).len() > 0
    &&& eq_ignore_case(trimmed(line.skip(9)), needle)
}

/// Whether some line of a `uevent` attribute names the wanted partition
/// identifier.
pub open spec fn uevent_matches_spec(content: Seq<u8>, needle: Seq<u8>) -> bool {
    exists|i: int|
        0 <= i < crate::vector::split_seq(content, LINE_SEP).len() && uevent_line_matches(
            #[trigger] crate::vector::split_seq(content, LINE_SEP)[i],
            needle,
        )
}

/// Compares two byte strings up to ASCII case.
pub fn eq_ignore_ascii_case(a: &Vec<u8>, b: &Vec<u8>) -> (r: bool)
    ensures
        r == eq_ignore_case(a@, b@),
{
    let n: usize = a.len();
    if b.len() != n {
        return false;
    }
    let mut i: usize = 0;
    while i < n
        invariant
            n == a@.len() == b@.len(),
            i <= n,
            forall|j: int| 0 <= j < i ==> ascii_lower(a@[j]) == ascii_lower(b@[j]),
        decreases n - i,
    {
        let mut x = *a.get(i);
        let mut y = *b.get(i);
        if 65 <= x && x <= 90 {
            x = x + 32;
        }
        if 65 <= y && y <= 90 {
            y = y + 32;
        }
        if x != y {
            return false;
        }
        i += 1;
    }
    true
}

/// Drops the whitespace at both ends of `v`.
pub fn trim(v: &Vec<u8>) -> (r: Vec<u8>)
    ensures
        r@ == trimmed(v@),
{
    let n: usize = v.len();
    let mut start: usize = 0;
    proof {
        assert(v@.skip(0) =~= v@);
    }
    while start < n && is_ws(*v.get(start))
        invariant
            n == v@.len(),
            start <= n,
            trim_front(v@) == trim_front(v@.skip(start as int)),
        decreases n - start,
    {
        proof {
            assert(v@.skip(start as int)[0] == v@[start as int]);
            assert(v@.skip(start as int).skip(1) =~= v@.skip(start + 1));
        }
        start += 1;
    }
    proof {
        if start == n {
            assert(v@.skip(start as int) =~= Seq::<u8>::empty());
        }
        assert(trim_front(v@) == v@.skip(start as int));
    }
    let mut end: usize = n;
    let ghost front = v@.skip(start as int);
    proof {
        assert(front.take(n - start) =~= front);
    }
    while end > start && is_ws(*v.get(end - 1))
        invariant
            n == v@.len(),
            start <= end <= n,
            front == v@.skip(start as int),
            trim_back(front) == trim_back(front.take(end - start)),
        decreases end,
    {
        proof {
            let piece = front.take(end - start);
            assert(piece.last() == v@[end - 1]);
            assert(piece.drop_last() =~= front.take(end - 1 - start));
        }
        end -= 1;
    }
    proof {
        if end == start {
            assert(front.take(0) =~= Seq::<u8>::empty());
        } else {
            assert(front.take(end - start).last() == v@[end - 1]);
        }
        assert(trim_back(front) == front.take(end - start));
        assert(front.take(end - start) =~= v@.subrange(start as int, end as int));
    }
    v.subvec(start, end)
}

/// Whether the text of a device's `uevent` attribute names the wanted
/// partition identifier on any of its lines.
pub fn uevent_matches(content: &Vec<u8>, needle: &Vec<u8>) -> (r: bool)
    ensures
        r == uevent_matches_spec(content@, needle@),
{
    let lines = content.split(LINE_SEP, true);
    let ghost lns = crate::vector::split_seq(content@, LINE_SEP);
    let n: usize = lines.len();
    let mut i: usize = 0;
    while i < n
        invariant
            n == lines@.len(),
            lns == crate::vector::split_seq(content@, LINE_SEP),
            seqs_of(lines@) == lns,
            i <= n,
            forall|j: int| 0 <= j < i ==> !uevent_line_matches(#[trigger] lns[j], needle@),
        decreases n - i,
    {
        let line = lines.get(i);
        proof {
            assert(lns[i as int] == lines@[i as int]@);
        }
        if line.starts_with(
            ['P' as u8, 'A' as u8, 'R' as u8, 'T' as u8, 'U' as u8, 'U' as u8, 'I' as u8,
                'D' as u8, '=' as u8].as_slice(),
        ) {
            proof {
                assert(has_prefix(line@, partuuid_prefix()));
            }
            let value = line.suffix(9);
            let cleaned = trim(&value);
            if !cleaned.empty() && eq_ignore_ascii_case(&cleaned, needle) {
                proof {
                    assert(uevent_line_matches(lns[i as int], needle@));
                }
                return true;
            }
        }
        i += 1;
    }
    false
}

/// The `/class/block` directory fragment of sysfs.
pub open spec fn class_block_lit() -> Seq<u8> {
    seq!['/' as u8, 'c' as u8, 'l' as u8, 'a' as u8, 's' as u8, 's' as u8, '/' as u8, 'b' as u8,
        'l' as u8, 'o' as u8, 'c' as u8, 'k' as u8]
}

/// The `/block` directory fragment of sysfs.
pub open spec fn block_lit() -> Seq<u8> {
    seq!['/' as u8, 'b' as u8, 'l' as u8, 'o' as u8, 'c' as u8, 'k' as u8]
}

/// The `/uevent` attribute fragment.
pub open spec fn uevent_lit() -> Seq<u8> {
    seq!['/' as u8, 'u' as u8, 'e' as u8, 'v' as u8, 'e' as u8, 'n' as u8, 't' as u8]
}

/// The first block-device directory to scan: `{sysfs}/class/block`.
pub fn class_block_dir(sys_mount: &Vec<u8>) -> (r: Vec<u8>)
    ensures
        r@ == sys_mount@ + class_block_lit(),
{
    let mut out = sys_mount.copied();
    out.append_slice(
        ['/' as u8, 'c' as u8, 'l' as u8, 'a' as u8, 's' as u8, 's' as u8, '/' as u8, 'b' as u8,
            'l' as u8, 'o' as u8, 'c' as u8, 'k' as u8].as_slice(),
    );
    out
}

/// The second block-device directory to scan: `{sysfs}/block`.
pub fn block_dir(sys_mount: &Vec<u8>) -> (r: Vec<u8>)
    ensures
        r@ == sys_mount@ + block_lit(),
{
    let mut out = sys_mount.copied();
    out.append_slice(
        ['/' as u8, 'b' as u8, 'l' as u8, 'o' as u8, 'c' as u8, 'k' as u8].as_slice(),
    );
    out
}

/// Where a device's `uevent` attribute is read first:
/// `{sysfs}/class/block/{device}/uevent`.
pub fn uevent_path(sys_mount: &Vec<u8>, device: &Vec<u8>) -> (r: Vec<u8>)
    ensures
        r@ == sys_mount@ + class_block_lit() + seq!['/' as u8] + device@ + uevent_lit(),
{
    let mut out = class_block_dir(sys_mount);
    out.push('/' as u8);
    proof {
        assert((sys_mount@ + class_block_lit()).push('/' as u8) =~= sys_mount@
            + class_block_lit() + seq!['/' as u8]);
    }
    out.append_from(device);
    out.append_slice(
        ['/' as u8, 'u' as u8, 'e' as u8, 'v' as u8, 'e' as u8, 'n' as u8, 't' as u8].as_slice(),
    );
    proof {
        assert(out@ =~= sys_mount@ + class_block_lit() + seq!['/' as u8] + device@
            + uevent_lit());
    }
    out
}

/// How many digits end the device name.
pub open spec fn trailing_digit_count(s: Seq<u8>) -> int
    decreases s.len(),
{
    if s.len() > 0 && is_digit_byte(s.last()) {
        1 + trailing_digit_count(s.drop_last())
    } else {
        0
    }
}

/// Whether one byte is an ASCII digit.
pub open spec fn is_digit_byte(b: u8) -> bool {
    48 <= b <= 57
}

fn is_digit(b: u8) -> (r: bool)
    ensures
        r == is_digit_byte(b),
{
    48 <= b && b <= 57
}

/// The alternate place of a partition's `uevent` attribute, reached through
/// its disk: `{sysfs}/block/{disk}/{device}/uevent`, where the disk name is
/// the device name with its trailing digits cut.  A name without trailing
/// digits, or of digits alone, has no such place.
pub fn alt_uevent_path(sys_mount: &Vec<u8>, device: &Vec<u8>) -> (r: Option<Vec<u8>>)
    ensures
        ({
            let td = trailing_digit_count(device@);
            &&& (r is Some) == (0 < td < device@.len())
            &&& r matches Some(p) ==> p@ == sys_mount@ + block_lit() + seq!['/' as u8]
                + device@.take(device@.len() - td) + seq!['/' as u8] + device@ + uevent_lit()
        }),
{
    let ghost dv = device@;
    let n: usize = device.len();
    let mut j: usize = n;
    proof {
        assert(dv.take(n as int) =~= dv);
    }
    while j > 0 && is_digit(*device.get(j - 1))
        invariant
            n == dv.len(),
            dv == device@,
            j <= n,
            trailing_digit_count(dv) == trailing_digit_count(dv.take(j as int)) + (n - j),
        decreases j,
    {
        proof {
            let piece = dv.take(j as int);
            assert(piece.last() == dv[j - 1]);
            assert(piece.drop_last() =~= dv.take(j - 1));
        }
        j -= 1;
    }
    proof {
        if j == 0 {
            assert(dv.take(0) =~= Seq::<u8>::empty());
            assert(trailing_digit_count(dv.take(0)) == 0);
        } else {
            assert(dv.take(j as int).last() == dv[j - 1]);
            assert(trailing_digit_count(dv.take(j as int)) == 0);
        }
        assert(trailing_digit_count(dv) == n - j);
    }
    if j == 0 || j == n {
        return None;
    }
    let mut out = block_dir(sys_mount);
    out.push('/' as u8);
    out.append_from(&device.subvec(0, j));
    out.push('/' as u8);
    out.append_from(device);
    out.append_slice(
        ['/' as u8, 'u' as u8, 'e' as u8, 'v' as u8, 'e' as u8, 'n' as u8, 't' as u8].as_slice(),
    );
    proof {
        assert(out@ =~= sys_mount@ + block_lit() + seq!['/' as u8] + dv.take(
            dv.len() - trailing_digit_count(dv),
        ) + seq!['/' as u8] + dv + uevent_lit());
    }
    Some(out)
}

/// The device node the resolved name stands for: the devtmpfs mount point, a
/// separating slash where one is missing, and the device name.
pub fn device_node_path(dev_mount: &Vec<u8>, name: &Vec<u8>) -> (r: Vec<u8>)
    ensures
        r@ == dev_mount@ + (if dev_mount@.len() > 0 && dev_mount@.last() == '/' as u8 {
            Seq::<u8>::empty()
        } else {
            seq!['/' as u8]
        }) + name@,
{
    let mut out = dev_mount.copied();
    let n = dev_mount.len();
    if n == 0 || *dev_mount.get(n - 1) != '/' as u8 {
        out.push('/' as u8);
        proof {
            assert(dev_mount@.push('/' as u8) =~= dev_mount@ + seq!['/' as u8]);
        }
    } else {
        proof {
            assert(dev_mount@ + Seq::<u8>::empty() =~= dev_mount@);
        }
    }
    out.append_from(name);
    out
}

/// Whether `sub` occurs in `s`.
pub open spec fn contains_sub(s: Seq<u8>, sub: Seq<u8>) -> bool {
    exists|i: int| 0 <= i <= s.len() - sub.len() && #[trigger] s.subrange(i, i + sub.len()) == sub
}

/// The name fragment marking a ramdisk device.
pub open spec fn ram_lit() -> Seq<u8> {
    seq!['r' as u8, 'a' as u8, 'm' as u8]
}

/// The name fragment marking a loop device.
pub open spec fn loop_lit() -> Seq<u8> {
    seq!['l' as u8, 'o' as u8, 'o' as u8, 'p' as u8]
}

/// Whether a device name is left out of the devtmpfs fallback scan: ramdisks
/// and loop devices never back the real root.
pub open spec fn dev_name_excluded(name: Seq<u8>) -> bool {
    contains_sub(name, ram_lit()) || contains_sub(name, loop_lit())
}

/// Looks for `sub` in `v`.
pub fn contains_bytes(v: &Vec<u8>, sub: &[u8]) -> (r: bool)
    ensures
        r == contains_sub(v@, sub@),
{
    let n: usize = v.len();
    let m: usize = sub.len();
    if m > n {
        return false;
    }
    if m == 0 {
        proof {
            assert(contains_sub(v@, sub@)) by {
                assert(v@.subrange(0, 0 + sub@.len() as int) =~= sub@);
            }
        }
        return true;
    }
    let mut i: usize = 0;
    while i <= n - m
        invariant
            n == v@.len(),
            m == sub@.len(),
            1 <= m <= n,
            i <= n - m + 1,
            forall|k: int| 0 <= k < i ==> #[trigger] v@.subrange(k, k + m) != sub@,
        decreases n - i,
    {
        let piece = v.subvec(i, i + m);
        if piece.matches(sub) {
            return true;
        }
        i += 1;
    }
    false
}

/// One block device as a scan saw it: its directory-entry name and, when one
/// of its `uevent` places could be read, that text.
#[derive(Debug, Clone, PartialEq)]
pub struct DeviceEntry {
    pub name: Vec<u8>,
    pub uevent: Option<Vec<u8>>,
}

/// Whether a scanned device's `uevent` text names the wanted partition
/// identifier.
pub open spec fn entry_matches(e: DeviceEntry, needle: Seq<u8>) -> bool {
    e.uevent matches Some(u) && uevent_matches_spec(u@, needle)
}

/// The name of the first device of `entries` that matches `needle`; with
/// `exclude_names` the ramdisk and loop names are passed over unread.
pub open spec fn first_match(entries: Seq<DeviceEntry>, needle: Seq<u8>, exclude_names: bool) -> Option<Seq<u8>>
    decreases entries.len(),
{
    if entries.len() == 0 {
        None
    } else if (!exclude_names || !dev_name_excluded(entries[0].name@)) && entry_matches(
        entries[0],
        needle,
    ) {
        Some(entries[0].name@)
    } else {
        first_match(entries.skip(1), needle, exclude_names)
    }
}

/// The entries a scan yielded, where it could be made at all.
pub open spec fn entries_view(o: Option<&Vec<DeviceEntry>>) -> Option<Seq<DeviceEntry>> {
    match o {
        Some(v) => Some(v@),
        None => None,
    }
}

/// What the whole scan resolves to: the strategies are tried in their fixed
/// priority order — `class/block`, then `block`, then the devtmpfs fallback
/// with its name filter — and the first strategy that yields a match decides.
pub open spec fn scan_spec(
    class_block: Option<Seq<DeviceEntry>>,
    sys_block: Option<Seq<DeviceEntry>>,
    dev_scan: Option<Seq<DeviceEntry>>,
    needle: Seq<u8>,
) -> Option<Seq<u8>> {
    let a = match class_block {
        Some(es) => first_match(es, needle, false),
        None => None,
    };
    let b = match sys_block {
        Some(es) => first_match(es, needle, false),
        None => None,
    };
    let c = match dev_scan {
        Some(es) => first_match(es, needle, true),
        None => None,
    };
    if a is Some {
        a
    } else if b is Some {
        b
    } else {
        c
    }
}

fn first_matching(entries: &Vec<DeviceEntry>, needle: &Vec<u8>, exclude_names: bool) -> (r: Option<
    Vec<u8>,
>)
    ensures
        opt_view(r) == first_match(entries@, needle@, exclude_names),
{
    let ghost es = entries@;
    let n: usize = entries.len();
    let mut i: usize = 0;
    proof {
        assert(es.skip(0) =~= es);
    }
    while i < n
        invariant
            n == es.len(),
            es == entries@,
            i <= n,
            first_match(es, needle@, exclude_names) == first_match(
                es.skip(i as int),
                needle@,
                exclude_names,
            ),
        decreases n - i,
    {
        let e = entries.get(i);
        proof {
            assert(es.skip(i as int)[0] == es[i as int]);
            assert(es.skip(i as int).skip(1) =~= es.skip(i + 1));
        }
        let excluded = exclude_names && (contains_bytes(&e.name, ['r' as u8, 'a' as u8, 'm' as u8].as_slice())
            || contains_bytes(&e.name, ['l' as u8, 'o' as u8, 'o' as u8, 'p' as u8].as_slice()));
        if !excluded {
            let found = match &e.uevent {
                Some(u) => uevent_matches(u, needle),
                None => false,
            };
            if found {
                return Some(e.name.copied());
            }
        }
        i += 1;
    }
    proof {
        assert(es.skip(n as int) =~= Seq::<DeviceEntry>::empty());
    }
    None
}

/// Picks the device that carries the wanted partition identifier out of the
/// three scans, in their fixed priority order.
pub fn find_device_by_partuuid(
    needle: &Vec<u8>,
    class_block: Option<&Vec<DeviceEntry>>,
    sys_block: Option<&Vec<DeviceEntry>>,
    dev_scan: Option<&Vec<DeviceEntry>>,
) -> (r: Option<Vec<u8>>)
    ensures
        opt_view(r) == scan_spec(
            entries_view(class_block),
            entries_view(sys_block),
            entries_view(dev_scan),
            needle@,
        ),
{
    if let Some(es) = class_block {
        let a = first_matching(es, needle, false);
        if a.is_some() {
            return a;
        }
    }
    if let Some(es) = sys_block {
        let b = first_matching(es, needle, false);
        if b.is_some() {
            return b;
        }
    }
    match dev_scan {
        Some(es) => first_matching(es, needle, true),
        None => None,
    }
}

/// Resolves the wanted partition identifier to a device name, or fails with
/// the no-device error once all three scans are exhausted.
pub fn resolve_device(
    needle: &Vec<u8>,
    class_block: Option<&Vec<DeviceEntry>>,
    sys_block: Option<&Vec<DeviceEntry>>,
    dev_scan: Option<&Vec<DeviceEntry>>,
) -> (r: Result<Vec<u8>, crate::BootError>)
    ensures
        ({
            let outcome = scan_spec(
                entries_view(class_block),
                entries_view(sys_block),
                entries_view(dev_scan),
                needle@,
            );
            &&& (r is Ok) == (outcome is Some)
            &&& (r matches Ok(d) ==> Some(d@) == outcome)
            &&& (r matches Err(e) ==> e == crate::BootError::NoDevice)
        }),
{
    match find_device_by_partuuid(needle, class_block, sys_block, dev_scan) {
        Some(d) => Ok(d),
        None => Err(crate::BootError::NoDevice),
    }
}

/// A strategy yields no match exactly when none of its entries matches.
pub proof fn lemma_first_match_none(entries: Seq<DeviceEntry>, needle: Seq<u8>, exclude_names: bool)
    ensures
        (first_match(entries, needle, exclude_names) is None) <==> (forall|i: int|
            0 <= i < entries.len() ==> !((!exclude_names || !dev_name_excluded(
                (#[trigger] entries[i]).name@,
            )) && entry_matches(entries[i], needle))),
    decreases entries.len(),
{
    if entries.len() > 0 {
        lemma_first_match_none(entries.skip(1), needle, exclude_names);
        assert(forall|i: int|
            1 <= i < entries.len() ==> #[trigger] entries[i] == entries.skip(1)[i - 1]);
    }
}

/// Law: resolution fails only once every strategy is exhausted.  The scan
/// yields nothing exactly when, in each of the three scans that could be
/// made, no admissible entry matches — a match anywhere, under any strategy,
/// resolves.
pub proof fn lemma_resolution_exhausts_all_scans(
    class_block: Option<Seq<DeviceEntry>>,
    sys_block: Option<Seq<DeviceEntry>>,
    dev_scan: Option<Seq<DeviceEntry>>,
    needle: Seq<u8>,
)
    ensures
        (scan_spec(class_block, sys_block, dev_scan, needle) is None) <==> ({
            &&& (class_block matches Some(es) ==> forall|i: int|
                0 <= i < es.len() ==> !entry_matches(#[trigger] es[i], needle))
            &&& (sys_block matches Some(es) ==> forall|i: int|
                0 <= i < es.len() ==> !entry_matches(#[trigger] es[i], needle))
            &&& (dev_scan matches Some(es) ==> forall|i: int|
                0 <= i < es.len() ==> !(!dev_name_excluded((#[trigger] es[i]).name@)
                    && entry_matches(es[i], needle)))
        }),
{
    if let Some(es) = class_block {
        lemma_first_match_none(es, needle, false);
    }
    if let Some(es) = sys_block {
        lemma_first_match_none(es, needle, false);
    }
    if let Some(es) = dev_scan {
        lemma_first_match_none(es, needle, true);
    }
}

/// The sentinel device name of an in-memory early root.
pub open spec fn rootfs_name() -> Seq<u8> {
    seq!['r' as u8, 'o' as u8, 'o' as u8, 't' as u8, 'f' as u8, 's' as u8]
}

/// The device backing `/` according to the mounted-filesystems text: of the
/// first line whose second field is `/`, the first field.
pub open spec fn root_dev_in(lines: Seq<Seq<u8>>) -> Option<Seq<u8>>
    decreases lines.len(),
{
    if lines.len() == 0 {
        None
    } else {
        let ps = crate::vector::split_seq(lines[0], FIELD_SEP);
        if ps.len() >= 2 && ps[1] == crate::mount::root_path() {
            Some(ps[0])
        } else {
            root_dev_in(lines.skip(1))
        }
    }
}

/// The device backing `/` in the mounted-filesystems text.
pub open spec fn mounts_root_device(content: Seq<u8>) -> Option<Seq<u8>> {
    root_dev_in(split_fields(content, LINE_SEP))
}

/// Reads off the mounted-filesystems text which device backs `/`.
pub fn root_backing_device(content: &Vec<u8>) -> (r: Option<Vec<u8>>)
    ensures
        opt_view(r) == mounts_root_device(content@),
{
    let lines = content.split(LINE_SEP, false);
    let ghost lns = split_fields(content@, LINE_SEP);
    let n: usize = lines.len();
    let mut i: usize = 0;
    proof {
        assert(lns.skip(0) =~= lns);
    }
    while i < n
        invariant
            n == lines@.len(),
            lns == split_fields(content@, LINE_SEP),
            seqs_of(lines@) == lns,
            i <= n,
            mounts_root_device(content@) == root_dev_in(lns.skip(i as int)),
        decreases n - i,
    {
        let line = lines.get(i);
        proof {
            assert(lns.skip(i as int)[0] == lns[i as int]);
            assert(lns[i as int] == lines@[i as int]@);
            assert(lns.skip(i as int).skip(1) =~= lns.skip(i + 1));
        }
        let parts = line.split(FIELD_SEP, true);
        if parts.len() >= 2 {
            let slash: [u8; 1] = ['/' as u8];
            proof {
                assert(seqs_of(parts@)[0] == parts@[0]@);
                assert(seqs_of(parts@)[1] == parts@[1]@);
                assert(slash@ =~= crate::mount::root_path());
            }
            if parts.get(1).matches(slash.as_slice()) {
                return Some(parts.get(0).copied());
            }
        }
        i += 1;
    }
    proof {
        assert(lns.skip(n as int) =~= Seq::<Seq<u8>>::empty());
    }
    None
}

/// Classifies the early root off the mounted-filesystems text: it is an
/// initramfs exactly when the device backing `/` is the `rootfs` sentinel.
pub fn is_initramfs(content: &Vec<u8>) -> (r: bool)
    ensures
        r == (mounts_root_device(content@) == Some(rootfs_name())),
{
    match root_backing_device(content) {
        Some(dev) => dev.matches(
            ['r' as u8, 'o' as u8, 'o' as u8, 't' as u8, 'f' as u8, 's' as u8].as_slice(),
        ),
        None => false,
    }
}

} // verus!
