use vstd::prelude::*;

use crate::mount::{
    flag_of_token, is_data_token, no_flags, opt_view, with_flag, MountFlag, Mountpoint,
    MountpointFlags,
};
use crate::vector::{seqs_of, split_fields, split_seq, Vec};
use crate::BootError;

verus! {

/// The newline that separates mount-table records.
pub const LINE_SEP: u8 = 10;

/// The blank that separates a record's fields.
pub const FIELD_SEP: u8 = 32;

/// The records of the raw table text: its non-blank lines, in file order.
pub open spec fn table_lines(content: Seq<u8>) -> Seq<Seq<u8>> {
    split_fields(content, LINE_SEP)
}

/// The fields of one record line: its non-blank blank-separated pieces.
pub open spec fn line_fields(line: Seq<u8>) -> Seq<Seq<u8>> {
    split_fields(line, FIELD_SEP)
}

/// A structurally valid record line carries at least the target, source and
/// filesystem-type fields.
pub open spec fn line_ok(line: Seq<u8>) -> bool {
    line_fields(line).len() >= 3
}

/// Whether every record line of the table text is structurally valid.
pub open spec fn table_ok(content: Seq<u8>) -> bool {
    forall|i: int|
        0 <= i < table_lines(content).len() ==> line_ok(#[trigger] table_lines(content)[i])
}

/// Whether the record `m` is the one that the line `line` describes: the
/// fields are target, source and filesystem type in that order, and the
/// optional fourth field yields the flag set and the data string.
pub open spec fn record_matches(m: Mountpoint, line: Seq<u8>) -> bool {
    let fs = line_fields(line);
    &&& m.target@ == fs[0]
    &&& opt_view(m.src) == Some(fs[1])
    &&& opt_view(m.fstype) == Some(fs[2])
    &&& if fs.len() > 3 {
        let toks = split_seq(fs[3], OPT_SEP);
        &&& m.flags == flags_of_tokens(toks)
        &&& opt_view(m.data) == (if options_data(toks).len() > 0 {
            Some(options_data(toks))
        } else {
            None::<Seq<u8>>
        })
    } else {
        &&& m.flags == no_flags()
        &&& m.data is None
    }
}

/// An ordered mount table.
#[derive(Debug)]
pub struct Config {
    mounts: Vec<Mountpoint>,
}

impl View for Config {
    type V = Seq<Mountpoint>;

    closed spec fn view(&self) -> Seq<Mountpoint> {
        self.mounts@
    }
}

impl Config {
    /// Parses the raw table text.  Parsing succeeds exactly when every
    /// non-blank line has at least three fields, and then yields one record
    /// per such line, in file order; one malformed line fails the whole
    /// table with the configuration error.
    pub fn new(content: Vec<u8>) -> (r: Result<Self, BootError>)
        ensures
            (r is Ok) == table_ok(content@),
            r matches Ok(c) ==> {
                &&& c@.len() == table_lines(content@).len()
                &&& forall|i: int|
                    0 <= i < c@.len() ==> record_matches(
                        #[trigger] c@[i],
                        table_lines(content@)[i],
                    )
            },
            r matches Err(e) ==> e == BootError::InvalidConfig,
    {
        let ghost lns = table_lines(content@);
        let lines = content.split(LINE_SEP, false);
        let n: usize = lines.len();
        let mut mounts: Vec<Mountpoint> = Vec::default();
        let mut i: usize = 0;
        while i < n
            invariant
                n == lines@.len(),
                lns == table_lines(content@),
                seqs_of(lines@) == lns,
                lns.len() == n,
                i <= n,
                mounts@.len() == i,
                forall|j: int| 0 <= j < i ==> line_ok(#[trigger] lns[j]),
                forall|j: int|
                    0 <= j < i ==> record_matches(#[trigger] mounts@[j], lns[j]),
            decreases n - i,
        {
            let line = lines.get(i);
            proof {
                assert(lns[i as int] == lines@[i as int]@);
            }
            let fields = line.split(FIELD_SEP, false);
            if fields.len() < 3 {
                proof {
                    assert(!line_ok(table_lines(content@)[i as int]));
                    assert(!table_ok(content@));
                }
                return Err(BootError::InvalidConfig);
            }
            let target = fields.get(0).copied();
            let src = fields.get(1).copied();
            let fstype = fields.get(2).copied();
            let (flags, data) = if fields.len() > 3 {
                serialized_flags_split(fields.get(3))
            } else {
                (MountpointFlags::new([].as_slice()), Vec::default())
            };
            let data_opt: Option<Vec<u8>> = if data.empty() {
                None
            } else {
                Some(data)
            };
            let record = Mountpoint::new(Some(src), target, Some(fstype), flags, data_opt);
            proof {
                assert(seqs_of(fields@)[0] == fields@[0]@);
                assert(seqs_of(fields@)[1] == fields@[1]@);
                assert(seqs_of(fields@)[2] == fields@[2]@);
                if fields@.len() > 3 {
                    assert(seqs_of(fields@)[3] == fields@[3]@);
                }
                assert(record_matches(record, lns[i as int]));
            }
            mounts.push(record);
            i += 1;
        }
        Ok(Config { mounts })
    }

    /// The table's records, in order.
    pub fn mounts(&self) -> (r: &Vec<Mountpoint>)
        ensures
            r@ == self@,
    {
        &self.mounts
    }

    /// Where the table mounts sysfs, if it does; the latest such record
    /// decides.
    pub fn sys_mount_point(&self) -> (r: Option<Vec<u8>>)
        ensures
            opt_view(r) == last_target_with_fstype(self@, sysfs_name()),
    {
        self.last_target_with(
            ['s' as u8, 'y' as u8, 's' as u8, 'f' as u8, 's' as u8].as_slice(),
        )
    }

    /// Where the table mounts devtmpfs, if it does; the latest such record
    /// decides.
    pub fn dev_mount_point(&self) -> (r: Option<Vec<u8>>)
        ensures
            opt_view(r) == last_target_with_fstype(self@, devtmpfs_name()),
    {
        self.last_target_with(
            ['d' as u8, 'e' as u8, 'v' as u8, 't' as u8, 'm' as u8, 'p' as u8, 'f' as u8,
                's' as u8].as_slice(),
        )
    }

    fn last_target_with(&self, name: &[u8]) -> (r: Option<Vec<u8>>)
        ensures
            opt_view(r) == last_target_with_fstype(self@, name@),
    {
        let n: usize = self.mounts.len();
        let mut found: Option<Vec<u8>> = None;
        let mut i: usize = 0;
        proof {
            assert(self@.take(0) =~= Seq::<Mountpoint>::empty());
        }
        while i < n
            invariant
                n == self@.len(),
                i <= n,
                opt_view(found) == last_target_with_fstype(self@.take(i as int), name@),
            decreases n - i,
        {
            let m = self.mounts.get(i);
            proof {
                assert(self@.take(i + 1).drop_last() =~= self@.take(i as int));
                assert(self@.take(i + 1).last() == self@[i as int]);
            }
            let is_named = match m.fstype() {
                Some(t) => t.matches(name),
                None => false,
            };
            if is_named {
                found = Some(m.target().copied());
            }
            i += 1;
        }
        proof {
            assert(self@.take(n as int) =~= self@);
        }
        found
    }

    /// The path the real root is mounted on: the target of the latest record
    /// whose source is the `rootdev` sentinel, or the default system root.
    pub fn rootfs_target(&self) -> (r: Vec<u8>)
        ensures
            r@ == match last_rootdev_target(self@) {
                Some(t) => t,
                None => sysroot_path(),
            },
    {
        let n: usize = self.mounts.len();
        let mut found: Option<Vec<u8>> = None;
        let mut i: usize = 0;
        proof {
            assert(self@.take(0) =~= Seq::<Mountpoint>::empty());
        }
        while i < n
            invariant
                n == self@.len(),
                i <= n,
                opt_view(found) == last_rootdev_target(self@.take(i as int)),
            decreases n - i,
        {
            let m = self.mounts.get(i);
            proof {
                assert(self@.take(i + 1).drop_last() =~= self@.take(i as int));
                assert(self@.take(i + 1).last() == self@[i as int]);
            }
            if m.wants_rootdev() {
                found = Some(m.target().copied());
            }
            i += 1;
        }
        proof {
            assert(self@.take(n as int) =~= self@);
        }
        match found {
            Some(t) => t,
            None => {
                let t = Vec::new(['/' as u8, 'm' as u8, 'n' as u8, 't' as u8].as_slice());
                proof {
                    assert(t@ =~= sysroot_path());
                }
                t
            },
        }
    }

    /// The indices of the records of one mount phase, in table order: with
    /// `early` those that mount sysfs or devtmpfs, which device resolution
    /// needs first, and without it all the others.
    pub fn mount_phase_indices(&self, early: bool) -> (r: Vec<usize>)
        ensures
            forall|k: int|
                0 <= k < r@.len() ==> (#[trigger] r@[k]) < self@.len()
                    && is_early_spec(self@[r@[k] as int]) == early,
            forall|k1: int, k2: int| 0 <= k1 < k2 < r@.len() ==> r@[k1] < r@[k2],
            forall|i: int|
                0 <= i < self@.len() && is_early_spec(#[trigger] self@[i]) == early
                    ==> exists|k: int| 0 <= k < r@.len() && #[trigger] r@[k] as int == i,
    {
        let n: usize = self.mounts.len();
        let mut out: Vec<usize> = Vec::default();
        let mut i: usize = 0;
        while i < n
            invariant
                n == self@.len(),
                i <= n,
                forall|k: int|
                    0 <= k < out@.len() ==> (#[trigger] out@[k]) < i
                        && is_early_spec(self@[out@[k] as int]) == early,
                forall|k1: int, k2: int| 0 <= k1 < k2 < out@.len() ==> out@[k1] < out@[k2],
                forall|j: int|
                    0 <= j < i && is_early_spec(#[trigger] self@[j]) == early
                        ==> exists|k: int| 0 <= k < out@.len() && #[trigger] out@[k] as int == j,
            decreases n - i,
        {
            let m = self.mounts.get(i);
            if is_early_mount(m) == early {
                let ghost before = out@;
                out.push(i);
                proof {
                    assert(out@[before.len() as int] as int == i as int);
                    assert forall|j: int|
                        0 <= j < i && is_early_spec(#[trigger] self@[j]) == early
                            implies exists|k: int|
                        0 <= k < out@.len() && #[trigger] out@[k] as int == j by {
                        let k0 = choose|k: int|
                            0 <= k < before.len() && #[trigger] before[k] as int == j;
                        assert(out@[k0] as int == j);
                    }
                }
            }
            i += 1;
        }
        out
    }
}

/// The filesystem-type name `sysfs`.
pub open spec fn sysfs_name() -> Seq<u8> {
    seq!['s' as u8, 'y' as u8, 's' as u8, 'f' as u8, 's' as u8]
}

/// The filesystem-type name `devtmpfs`.
pub open spec fn devtmpfs_name() -> Seq<u8> {
    seq!['d' as u8, 'e' as u8, 'v' as u8, 't' as u8, 'm' as u8, 'p' as u8, 'f' as u8, 's' as u8]
}

/// The default path the real root is mounted on.
pub open spec fn sysroot_path() -> Seq<u8> {
    seq!['/' as u8, 'm' as u8, 'n' as u8, 't' as u8]
}

/// The target of the latest record whose filesystem type is `ty`.
pub open spec fn last_target_with_fstype(mounts: Seq<Mountpoint>, ty: Seq<u8>) -> Option<Seq<u8>>
    decreases mounts.len(),
{
    if mounts.len() == 0 {
        None
    } else if opt_view(mounts.last().fstype) == Some(ty) {
        Some(mounts.last().target@)
    } else {
        last_target_with_fstype(mounts.drop_last(), ty)
    }
}

/// The target of the latest record whose source is the `rootdev` sentinel.
pub open spec fn last_rootdev_target(mounts: Seq<Mountpoint>) -> Option<Seq<u8>>
    decreases mounts.len(),
{
    if mounts.len() == 0 {
        None
    } else if opt_view(mounts.last().src) == Some(crate::mount::rootdev_name()) {
        Some(mounts.last().target@)
    } else {
        last_rootdev_target(mounts.drop_last())
    }
}

/// Whether a record belongs to the early mount phase: it mounts sysfs or
/// devtmpfs, which must be in place before the root device is resolved.
pub open spec fn is_early_spec(m: Mountpoint) -> bool {
    opt_view(m.fstype) == Some(sysfs_name()) || opt_view(m.fstype) == Some(devtmpfs_name())
}

/// Decides whether a record belongs to the early mount phase.
pub fn is_early_mount(m: &Mountpoint) -> (r: bool)
    ensures
        r == is_early_spec(*m),
{
    match &m.fstype {
        Some(t) => {
            t.matches(['s' as u8, 'y' as u8, 's' as u8, 'f' as u8, 's' as u8].as_slice())
                || t.matches(
                ['d' as u8, 'e' as u8, 'v' as u8, 't' as u8, 'm' as u8, 'p' as u8, 'f' as u8,
                    's' as u8].as_slice(),
            )
        },
        None => false,
    }
}

/// The comma that separates option tokens and joins the data string.
pub const OPT_SEP: u8 = 44;

/// The flag set that a token list accumulates: every token naming an option
/// raises that option's flag, and no other token changes the set.
pub open spec fn flags_of_tokens(tokens: Seq<Seq<u8>>) -> MountpointFlags
    decreases tokens.len(),
{
    if tokens.len() == 0 {
        no_flags()
    } else {
        let prev = flags_of_tokens(tokens.drop_last());
        match flag_of_token(tokens.last()) {
            Some(f) => with_flag(prev, f),
            None => prev,
        }
    }
}

/// The tokens that go to the filesystem-specific data string: those naming
/// no recognized option, in order.
pub open spec fn data_tokens(tokens: Seq<Seq<u8>>) -> Seq<Seq<u8>>
    decreases tokens.len(),
{
    if tokens.len() == 0 {
        Seq::empty()
    } else {
        let rest = data_tokens(tokens.drop_last());
        if is_data_token(tokens.last()) {
            rest.push(tokens.last())
        } else {
            rest
        }
    }
}

/// The parts joined with single commas, with no leading or trailing comma.
pub open spec fn comma_join(parts: Seq<Seq<u8>>) -> Seq<u8>
    decreases parts.len(),
{
    if parts.len() == 0 {
        Seq::empty()
    } else if parts.len() == 1 {
        parts[0]
    } else {
        comma_join(parts.drop_last()) + seq![OPT_SEP] + parts.last()
    }
}

/// The data string a token list yields: its unrecognized tokens joined by
/// commas and, when that is non-empty, closed with a terminating NUL.
pub open spec fn options_data(tokens: Seq<Seq<u8>>) -> Seq<u8> {
    let joined = comma_join(data_tokens(tokens));
    if joined.len() > 0 {
        joined.push(0u8)
    } else {
        joined
    }
}

proof fn lemma_flags_of_tokens_push(tokens: Seq<Seq<u8>>, t: Seq<u8>)
    ensures
        flags_of_tokens(tokens.push(t)) == match flag_of_token(t) {
            Some(f) => with_flag(flags_of_tokens(tokens), f),
            None => flags_of_tokens(tokens),
        },
{
    assert(tokens.push(t).drop_last() =~= tokens);
}

proof fn lemma_data_tokens_push(tokens: Seq<Seq<u8>>, t: Seq<u8>)
    ensures
        data_tokens(tokens.push(t)) == if is_data_token(t) {
            data_tokens(tokens).push(t)
        } else {
            data_tokens(tokens)
        },
{
    assert(tokens.push(t).drop_last() =~= tokens);
}

proof fn lemma_comma_join_push(parts: Seq<Seq<u8>>, p: Seq<u8>)
    ensures
        parts.len() == 0 ==> comma_join(parts.push(p)) == p,
        parts.len() > 0 ==> comma_join(parts.push(p)) == comma_join(parts) + seq![OPT_SEP] + p,
{
    assert(parts.push(p).drop_last() =~= parts);
    if parts.len() == 0 {
        assert(comma_join(parts.push(p)) == parts.push(p)[0]);
    }
}

/// Law: a recognized token raises exactly its own flag and contributes
/// nothing to the data string; the `rw` no-op raises nothing and contributes
/// nothing either.
pub proof fn lemma_recognized_token_contributes_no_data(tokens: Seq<Seq<u8>>, t: Seq<u8>)
    requires
        !is_data_token(t),
    ensures
        options_data(tokens.push(t)) == options_data(tokens),
        data_tokens(tokens.push(t)) == data_tokens(tokens),
        flags_of_tokens(tokens.push(t)) == match flag_of_token(t) {
            Some(f) => with_flag(flags_of_tokens(tokens), f),
            None => flags_of_tokens(tokens),
        },
{
    lemma_flags_of_tokens_push(tokens, t);
    lemma_data_tokens_push(tokens, t);
}

/// Law: an unrecognized token raises no flag and is appended to the data
/// string, after a separating comma when data came before it, with no
/// trailing separator.
pub proof fn lemma_unrecognized_token_appended(tokens: Seq<Seq<u8>>, t: Seq<u8>)
    requires
        is_data_token(t),
    ensures
        flags_of_tokens(tokens.push(t)) == flags_of_tokens(tokens),
        data_tokens(tokens.push(t)) == data_tokens(tokens).push(t),
        comma_join(data_tokens(tokens.push(t))) == if data_tokens(tokens).len() == 0 {
            t
        } else {
            comma_join(data_tokens(tokens)) + seq![OPT_SEP] + t
        },
{
    lemma_flags_of_tokens_push(tokens, t);
    lemma_data_tokens_push(tokens, t);
    lemma_comma_join_push(data_tokens(tokens), t);
}

/// Splits a comma-separated option list into the flag set of its recognized
/// tokens and the data string of its unrecognized ones.
pub fn serialized_flags_split(serialized: &Vec<u8>) -> (r: (MountpointFlags, Vec<u8>))
    ensures
        r.0 == flags_of_tokens(split_seq(serialized@, OPT_SEP)),
        r.1@ == options_data(split_seq(serialized@, OPT_SEP)),
{
    let tokens = serialized.split(OPT_SEP, true);
    let ghost toks = crate::vector::seqs_of(tokens@);
    let n: usize = tokens.len();
    let mut flags = MountpointFlags::new([].as_slice());
    let mut data: Vec<u8> = Vec::default();
    let mut any_data: bool = false;
    let mut i: usize = 0;
    proof {
        assert(toks.take(0) =~= Seq::<Seq<u8>>::empty());
    }
    while i < n
        invariant
            n == tokens@.len(),
            toks == crate::vector::seqs_of(tokens@),
            i <= n,
            flags == flags_of_tokens(toks.take(i as int)),
            data@ == comma_join(data_tokens(toks.take(i as int))),
            any_data == (data_tokens(toks.take(i as int)).len() > 0),
        decreases n - i,
    {
        let tok = tokens.get(i);
        let ghost prefix = toks.take(i as int);
        proof {
            assert(toks[i as int] == tokens@[i as int]@);
            assert(toks.take(i + 1) =~= prefix.push(tok@));
            lemma_flags_of_tokens_push(prefix, tok@);
            lemma_data_tokens_push(prefix, tok@);
        }
        match classify_token(tok) {
            TokenKind::Flag(f) => {
                flags.set(f);
            },
            TokenKind::NoOp => {
            },
            TokenKind::Data => {
                proof {
                    lemma_comma_join_push(data_tokens(prefix), tok@);
                }
                if any_data {
                    data.push(OPT_SEP);
                }
                data.append_from(tok);
                any_data = true;
            },
        }
        i += 1;
    }
    proof {
        assert(toks.take(n as int) =~= toks);
    }
    if !data.empty() {
        data.push(0u8);
    }
    (flags, data)
}

/// How one option token is handled: as a flag, as the read-write no-op, or
/// as filesystem-specific data.
enum TokenKind {
    Flag(MountFlag),
    NoOp,
    Data,
}

/// Classifies one option token.
fn classify_token(tok: &Vec<u8>) -> (r: TokenKind)
    ensures
        r matches TokenKind::Flag(f) ==> flag_of_token(tok@) == Some(f),
        r is NoOp ==> crate::mount::is_noop_token(tok@),
        r is Data ==> is_data_token(tok@),
{
    if tok.matches(['r' as u8, 'w' as u8].as_slice()) {
        TokenKind::NoOp
    } else if tok.matches(['n' as u8, 'o' as u8, 'd' as u8, 'e' as u8, 'v' as u8].as_slice()) {
        TokenKind::Flag(MountFlag::NoDev)
    } else if tok.matches(
        ['n' as u8, 'o' as u8, 'e' as u8, 'x' as u8, 'e' as u8, 'c' as u8].as_slice(),
    ) {
        TokenKind::Flag(MountFlag::NoExec)
    } else if tok.matches(
        ['n' as u8, 'o' as u8, 's' as u8, 'u' as u8, 'i' as u8, 'd' as u8].as_slice(),
    ) {
        TokenKind::Flag(MountFlag::NoSUID)
    } else if tok.matches(
        ['n' as u8, 'o' as u8, 'a' as u8, 't' as u8, 'i' as u8, 'm' as u8, 'e' as u8].as_slice(),
    ) {
        TokenKind::Flag(MountFlag::NoAccessTime)
    } else if tok.matches(
        ['r' as u8, 'e' as u8, 'm' as u8, 'o' as u8, 'u' as u8, 'n' as u8, 't' as u8].as_slice(),
    ) {
        TokenKind::Flag(MountFlag::Remount)
    } else if tok.matches(
        ['r' as u8, 'e' as u8, 'c' as u8, 'u' as u8, 'r' as u8, 's' as u8, 'i' as u8, 'v' as u8,
            'e' as u8].as_slice(),
    ) {
        TokenKind::Flag(MountFlag::Recursive)
    } else if tok.matches(
        ['l' as u8, 'a' as u8, 'z' as u8, 'y' as u8, 't' as u8, 'i' as u8, 'm' as u8, 'e' as u8]
            .as_slice(),
    ) {
        TokenKind::Flag(MountFlag::Lazytime)
    } else if tok.matches(
        ['s' as u8, 'i' as u8, 'l' as u8, 'e' as u8, 'n' as u8, 't' as u8].as_slice(),
    ) {
        TokenKind::Flag(MountFlag::Silent)
    } else if tok.matches(
        ['s' as u8, 'h' as u8, 'a' as u8, 'r' as u8, 'e' as u8, 'd' as u8].as_slice(),
    ) {
        TokenKind::Flag(MountFlag::Shared)
    } else if tok.matches(
        ['p' as u8, 'r' as u8, 'i' as u8, 'v' as u8, 'a' as u8, 't' as u8, 'e' as u8].as_slice(),
    ) {
        TokenKind::Flag(MountFlag::Private)
    } else if tok.matches(['b' as u8, 'i' as u8, 'n' as u8, 'd' as u8].as_slice()) {
        TokenKind::Flag(MountFlag::Bind)
    } else if tok.matches(['r' as u8, 'o' as u8].as_slice()) {
        TokenKind::Flag(MountFlag::ReadOnly)
    } else {
        TokenKind::Data
    }
}

} // verus!
