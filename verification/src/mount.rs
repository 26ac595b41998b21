use vstd::prelude::*;

use crate::vector::Vec;

verus! {

// Mount-flag bits of the Linux mount interface, as the kernel defines them.
pub const MS_RDONLY: u64 = 1;
pub const MS_NOSUID: u64 = 2;
pub const MS_NODEV: u64 = 4;
pub const MS_NOEXEC: u64 = 8;
pub const MS_SYNCHRONOUS: u64 = 16;
pub const MS_REMOUNT: u64 = 32;
pub const MS_DIRSYNC: u64 = 128;
pub const MS_NOATIME: u64 = 1024;
pub const MS_NODIRATIME: u64 = 2048;
pub const MS_BIND: u64 = 4096;
pub const MS_MOVE: u64 = 8192;
pub const MS_REC: u64 = 16384;
pub const MS_SILENT: u64 = 32768;
pub const MS_UNBINDABLE: u64 = 131072;
pub const MS_PRIVATE: u64 = 262144;
pub const MS_SLAVE: u64 = 524288;
pub const MS_SHARED: u64 = 1048576;
pub const MS_RELATIME: u64 = 2097152;
pub const MS_LAZYTIME: u64 = 33554432;

/// One symbolic mount option.
#[derive(Copy, Clone, Debug, PartialEq, Eq, Structural)]
pub enum MountFlag {
    Bind,
    Shared,
    Private,
    Slave,
    Unbindable,
    Recursive,
    DirSync,
    Lazytime,
    NoAccessTime,
    NoDev,
    NoExec,
    NoSUID,
    ReadOnly,
    RelativeAccessTime,
    Silent,
    Synchronous,
    Remount,
}

/// The single flag bit a mount option stands for.
pub open spec fn flag_bit(f: MountFlag) -> u64 {
    match f {
        MountFlag::Bind => MS_BIND,
        MountFlag::Shared => MS_SHARED,
        MountFlag::Private => MS_PRIVATE,
        MountFlag::Slave => MS_SLAVE,
        MountFlag::Unbindable => MS_UNBINDABLE,
        MountFlag::Recursive => MS_REC,
        MountFlag::DirSync => MS_DIRSYNC,
        MountFlag::Lazytime => MS_LAZYTIME,
        MountFlag::NoAccessTime => MS_NOATIME,
        MountFlag::NoDev => MS_NODEV,
        MountFlag::NoExec => MS_NOEXEC,
        MountFlag::NoSUID => MS_NOSUID,
        MountFlag::ReadOnly => MS_RDONLY,
        MountFlag::RelativeAccessTime => MS_RELATIME,
        MountFlag::Silent => MS_SILENT,
        MountFlag::Synchronous => MS_SYNCHRONOUS,
        MountFlag::Remount => MS_REMOUNT,
    }
}

/// Every mount option stands for exactly one bit: each bit is a single set
/// bit, and no two options share one.
pub proof fn lemma_flag_bits_distinct(f1: MountFlag, f2: MountFlag)
    requires
        f1 != f2,
    ensures
        flag_bit(f1) != flag_bit(f2),
{
}

/// Each option's bit is a power of two.
pub proof fn lemma_flag_bit_single(f: MountFlag)
    ensures
        exists|k: u64| k < 64 && flag_bit(f) == (1u64 << k),
{
    match f {
        MountFlag::Bind => {
            assert(1u64 << 12u64 == 4096) by (bit_vector);
            assert(flag_bit(f) == (1u64 << 12u64));
        },
        MountFlag::Shared => {
            assert(1u64 << 20u64 == 1048576) by (bit_vector);
            assert(flag_bit(f) == (1u64 << 20u64));
        },
        MountFlag::Private => {
            assert(1u64 << 18u64 == 262144) by (bit_vector);
            assert(flag_bit(f) == (1u64 << 18u64));
        },
        MountFlag::Slave => {
            assert(1u64 << 19u64 == 524288) by (bit_vector);
            assert(flag_bit(f) == (1u64 << 19u64));
        },
        MountFlag::Unbindable => {
            assert(1u64 << 17u64 == 131072) by (bit_vector);
            assert(flag_bit(f) == (1u64 << 17u64));
        },
        MountFlag::Recursive => {
            assert(1u64 << 14u64 == 16384) by (bit_vector);
            assert(flag_bit(f) == (1u64 << 14u64));
        },
        MountFlag::DirSync => {
            assert(1u64 << 7u64 == 128) by (bit_vector);
            assert(flag_bit(f) == (1u64 << 7u64));
        },
        MountFlag::Lazytime => {
            assert(1u64 << 25u64 == 33554432) by (bit_vector);
            assert(flag_bit(f) == (1u64 << 25u64));
        },
        MountFlag::NoAccessTime => {
            assert(1u64 << 10u64 == 1024) by (bit_vector);
            assert(flag_bit(f) == (1u64 << 10u64));
        },
        MountFlag::NoDev => {
            assert(1u64 << 2u64 == 4) by (bit_vector);
            assert(flag_bit(f) == (1u64 << 2u64));
        },
        MountFlag::NoExec => {
            assert(1u64 << 3u64 == 8) by (bit_vector);
            assert(flag_bit(f) == (1u64 << 3u64));
        },
        MountFlag::NoSUID => {
            assert(1u64 << 1u64 == 2) by (bit_vector);
            assert(flag_bit(f) == (1u64 << 1u64));
        },
        MountFlag::ReadOnly => {
            assert(1u64 << 0u64 == 1) by (bit_vector);
            assert(flag_bit(f) == (1u64 << 0u64));
        },
        MountFlag::RelativeAccessTime => {
            assert(1u64 << 21u64 == 2097152) by (bit_vector);
            assert(flag_bit(f) == (1u64 << 21u64));
        },
        MountFlag::Silent => {
            assert(1u64 << 15u64 == 32768) by (bit_vector);
            assert(flag_bit(f) == (1u64 << 15u64));
        },
        MountFlag::Synchronous => {
            assert(1u64 << 4u64 == 16) by (bit_vector);
            assert(flag_bit(f) == (1u64 << 4u64));
        },
        MountFlag::Remount => {
            assert(1u64 << 5u64 == 32) by (bit_vector);
            assert(flag_bit(f) == (1u64 << 5u64));
        },
    }
}

/// The set of mount options one mount carries.
#[derive(Copy, Clone, Debug, PartialEq, Eq, Structural)]
pub struct MountpointFlags {
    pub bind: bool,
    pub shared: bool,
    pub private: bool,
    pub slave: bool,
    pub unbindable: bool,
    pub recursive: bool,
    pub dirsync: bool,
    pub lazytime: bool,
    pub no_access_time: bool,
    pub no_dev: bool,
    pub no_exec: bool,
    pub no_suid: bool,
    pub read_only: bool,
    pub relative_access_time: bool,
    pub silent: bool,
    pub synchronous: bool,
    pub remount: bool,
}

/// The flag set with no option raised.
pub open spec fn no_flags() -> MountpointFlags {
    MountpointFlags {
        bind: false,
        shared: false,
        private: false,
        slave: false,
        unbindable: false,
        recursive: false,
        dirsync: false,
        lazytime: false,
        no_access_time: false,
        no_dev: false,
        no_exec: false,
        no_suid: false,
        read_only: false,
        relative_access_time: false,
        silent: false,
        synchronous: false,
        remount: false,
    }
}

/// `flags` with the option `f` raised.
pub open spec fn with_flag(flags: MountpointFlags, f: MountFlag) -> MountpointFlags {
    match f {
        MountFlag::Bind => MountpointFlags { bind: true, ..flags },
        MountFlag::Shared => MountpointFlags { shared: true, ..flags },
        MountFlag::Private => MountpointFlags { private: true, ..flags },
        MountFlag::Slave => MountpointFlags { slave: true, ..flags },
        MountFlag::Unbindable => MountpointFlags { unbindable: true, ..flags },
        MountFlag::Recursive => MountpointFlags { recursive: true, ..flags },
        MountFlag::DirSync => MountpointFlags { dirsync: true, ..flags },
        MountFlag::Lazytime => MountpointFlags { lazytime: true, ..flags },
        MountFlag::NoAccessTime => MountpointFlags { no_access_time: true, ..flags },
        MountFlag::NoDev => MountpointFlags { no_dev: true, ..flags },
        MountFlag::NoExec => MountpointFlags { no_exec: true, ..flags },
        MountFlag::NoSUID => MountpointFlags { no_suid: true, ..flags },
        MountFlag::ReadOnly => MountpointFlags { read_only: true, ..flags },
        MountFlag::RelativeAccessTime => MountpointFlags { relative_access_time: true, ..flags },
        MountFlag::Silent => MountpointFlags { silent: true, ..flags },
        MountFlag::Synchronous => MountpointFlags { synchronous: true, ..flags },
        MountFlag::Remount => MountpointFlags { remount: true, ..flags },
    }
}

/// `base` with every option of `fs` raised, in order.
pub open spec fn with_flags(base: MountpointFlags, fs: Seq<MountFlag>) -> MountpointFlags
    decreases fs.len(),
{
    if fs.len() == 0 {
        base
    } else {
        with_flag(with_flags(base, fs.drop_last()), fs.last())
    }
}

impl MountpointFlags {
    /// The flag set holding exactly the options of `flags`.
    pub fn new(flags: &[MountFlag]) -> (r: Self)
        ensures
            r == with_flags(no_flags(), flags@),
    {
        let mut r = MountpointFlags {
            bind: false,
            shared: false,
            private: false,
            slave: false,
            unbindable: false,
            recursive: false,
            dirsync: false,
            lazytime: false,
            no_access_time: false,
            no_dev: false,
            no_exec: false,
            no_suid: false,
            read_only: false,
            relative_access_time: false,
            silent: false,
            synchronous: false,
            remount: false,
        };
        let n: usize = flags.len();
        let mut i: usize = 0;
        while i < n
            invariant
                n == flags@.len(),
                i <= n,
                r == with_flags(no_flags(), flags@.take(i as int)),
            decreases n - i,
        {
            r.set(flags[i]);
            proof {
                assert(flags@.take(i + 1).drop_last() =~= flags@.take(i as int));
                assert(flags@.take(i + 1).last() == flags@[i as int]);
            }
            i += 1;
        }
        proof {
            assert(flags@.take(n as int) =~= flags@);
        }
        r
    }

    /// Raises the option `flag`.
    pub fn set(&mut self, flag: MountFlag)
        ensures
            *final(self) == with_flag(*old(self), flag),
    {
        let cur = *self;
        *self = match flag {
            MountFlag::Bind => MountpointFlags { bind: true, ..cur },
            MountFlag::Shared => MountpointFlags { shared: true, ..cur },
            MountFlag::Private => MountpointFlags { private: true, ..cur },
            MountFlag::Slave => MountpointFlags { slave: true, ..cur },
            MountFlag::Unbindable => MountpointFlags { unbindable: true, ..cur },
            MountFlag::Recursive => MountpointFlags { recursive: true, ..cur },
            MountFlag::DirSync => MountpointFlags { dirsync: true, ..cur },
            MountFlag::Lazytime => MountpointFlags { lazytime: true, ..cur },
            MountFlag::NoAccessTime => MountpointFlags { no_access_time: true, ..cur },
            MountFlag::NoDev => MountpointFlags { no_dev: true, ..cur },
            MountFlag::NoExec => MountpointFlags { no_exec: true, ..cur },
            MountFlag::NoSUID => MountpointFlags { no_suid: true, ..cur },
            MountFlag::ReadOnly => MountpointFlags { read_only: true, ..cur },
            MountFlag::RelativeAccessTime => MountpointFlags { relative_access_time: true, ..cur },
            MountFlag::Silent => MountpointFlags { silent: true, ..cur },
            MountFlag::Synchronous => MountpointFlags { synchronous: true, ..cur },
            MountFlag::Remount => MountpointFlags { remount: true, ..cur },
        };
    }

    /// The bitmask the flag set stands for.
    pub open spec fn mask(self) -> u64 {
        (if self.bind { MS_BIND } else { 0 })
        | (if self.shared { MS_SHARED } else { 0 })
        | (if self.private { MS_PRIVATE } else { 0 })
        | (if self.slave { MS_SLAVE } else { 0 })
        | (if self.unbindable { MS_UNBINDABLE } else { 0 })
        | (if self.recursive { MS_REC } else { 0 })
        | (if self.dirsync { MS_DIRSYNC } else { 0 })
        | (if self.lazytime { MS_LAZYTIME } else { 0 })
        | (if self.no_access_time { MS_NOATIME } else { 0 })
        | (if self.no_dev { MS_NODEV } else { 0 })
        | (if self.no_exec { MS_NOEXEC } else { 0 })
        | (if self.no_suid { MS_NOSUID } else { 0 })
        | (if self.read_only { MS_RDONLY } else { 0 })
        | (if self.relative_access_time { MS_RELATIME } else { 0 })
        | (if self.silent { MS_SILENT } else { 0 })
        | (if self.synchronous { MS_SYNCHRONOUS } else { 0 })
        | (if self.remount { MS_REMOUNT } else { 0 })
    }

    /// Computes the bitmask to hand to the mount operation.
    pub fn flags(&self) -> (r: u64)
        ensures
            r == self.mask(),
    {
        (if self.bind { MS_BIND } else { 0 })
        | (if self.shared { MS_SHARED } else { 0 })
        | (if self.private { MS_PRIVATE } else { 0 })
        | (if self.slave { MS_SLAVE } else { 0 })
        | (if self.unbindable { MS_UNBINDABLE } else { 0 })
        | (if self.recursive { MS_REC } else { 0 })
        | (if self.dirsync { MS_DIRSYNC } else { 0 })
        | (if self.lazytime { MS_LAZYTIME } else { 0 })
        | (if self.no_access_time { MS_NOATIME } else { 0 })
        | (if self.no_dev { MS_NODEV } else { 0 })
        | (if self.no_exec { MS_NOEXEC } else { 0 })
        | (if self.no_suid { MS_NOSUID } else { 0 })
        | (if self.read_only { MS_RDONLY } else { 0 })
        | (if self.relative_access_time { MS_RELATIME } else { 0 })
        | (if self.silent { MS_SILENT } else { 0 })
        | (if self.synchronous { MS_SYNCHRONOUS } else { 0 })
        | (if self.remount { MS_REMOUNT } else { 0 })
    }
}

/// The `rw` token: a no-op, signalling only the absence of `ro`.
pub open spec fn tok_rw() -> Seq<u8> {
    seq!['r' as u8, 'w' as u8]
}

pub open spec fn tok_ro() -> Seq<u8> {
    seq!['r' as u8, 'o' as u8]
}

pub open spec fn tok_bind() -> Seq<u8> {
    seq!['b' as u8, 'i' as u8, 'n' as u8, 'd' as u8]
}

pub open spec fn tok_recursive() -> Seq<u8> {
    seq!['r' as u8, 'e' as u8, 'c' as u8, 'u' as u8, 'r' as u8, 's' as u8, 'i' as u8, 'v' as u8,
        'e' as u8]
}

pub open spec fn tok_noatime() -> Seq<u8> {
    seq!['n' as u8, 'o' as u8, 'a' as u8, 't' as u8, 'i' as u8, 'm' as u8, 'e' as u8]
}

pub open spec fn tok_remount() -> Seq<u8> {
    seq!['r' as u8, 'e' as u8, 'm' as u8, 'o' as u8, 'u' as u8, 'n' as u8, 't' as u8]
}

pub open spec fn tok_nodev() -> Seq<u8> {
    seq!['n' as u8, 'o' as u8, 'd' as u8, 'e' as u8, 'v' as u8]
}

pub open spec fn tok_noexec() -> Seq<u8> {
    seq!['n' as u8, 'o' as u8, 'e' as u8, 'x' as u8, 'e' as u8, 'c' as u8]
}

pub open spec fn tok_nosuid() -> Seq<u8> {
    seq!['n' as u8, 'o' as u8, 's' as u8, 'u' as u8, 'i' as u8, 'd' as u8]
}

pub open spec fn tok_lazytime() -> Seq<u8> {
    seq!['l' as u8, 'a' as u8, 'z' as u8, 'y' as u8, 't' as u8, 'i' as u8, 'm' as u8, 'e' as u8]
}

pub open spec fn tok_silent() -> Seq<u8> {
    seq!['s' as u8, 'i' as u8, 'l' as u8, 'e' as u8, 'n' as u8, 't' as u8]
}

pub open spec fn tok_shared() -> Seq<u8> {
    seq!['s' as u8, 'h' as u8, 'a' as u8, 'r' as u8, 'e' as u8, 'd' as u8]
}

pub open spec fn tok_private() -> Seq<u8> {
    seq!['p' as u8, 'r' as u8, 'i' as u8, 'v' as u8, 'a' as u8, 't' as u8, 'e' as u8]
}

/// The mount option one token names, if it names one.
pub open spec fn flag_of_token(t: Seq<u8>) -> Option<MountFlag> {
    if t == tok_nodev() {
        Some(MountFlag::NoDev)
    } else if t == tok_noexec() {
        Some(MountFlag::NoExec)
    } else if t == tok_nosuid() {
        Some(MountFlag::NoSUID)
    } else if t == tok_noatime() {
        Some(MountFlag::NoAccessTime)
    } else if t == tok_remount() {
        Some(MountFlag::Remount)
    } else if t == tok_recursive() {
        Some(MountFlag::Recursive)
    } else if t == tok_lazytime() {
        Some(MountFlag::Lazytime)
    } else if t == tok_silent() {
        Some(MountFlag::Silent)
    } else if t == tok_shared() {
        Some(MountFlag::Shared)
    } else if t == tok_private() {
        Some(MountFlag::Private)
    } else if t == tok_bind() {
        Some(MountFlag::Bind)
    } else if t == tok_ro() {
        Some(MountFlag::ReadOnly)
    } else {
        None
    }
}

/// Whether one token is recognized but raises no flag.
pub open spec fn is_noop_token(t: Seq<u8>) -> bool {
    t == tok_rw()
}

/// Whether one token is unrecognized and therefore goes to the
/// filesystem-specific data string.
pub open spec fn is_data_token(t: Seq<u8>) -> bool {
    flag_of_token(t) is None && !is_noop_token(t)
}

/// The sentinel source naming the resolved root device.
pub open spec fn rootdev_name() -> Seq<u8> {
    seq!['r' as u8, 'o' as u8, 'o' as u8, 't' as u8, 'd' as u8, 'e' as u8, 'v' as u8]
}

/// The path of the filesystem root.
pub open spec fn root_path() -> Seq<u8> {
    seq!['/' as u8]
}

/// One filesystem-mount intent: a target, an optional source (possibly the
/// `rootdev` sentinel), an optional filesystem type, the option flags and an
/// optional filesystem-specific data string.
#[derive(Debug)]
pub struct Mountpoint {
    pub src: Option<Vec<u8>>,
    pub target: Vec<u8>,
    pub fstype: Option<Vec<u8>>,
    pub flags: MountpointFlags,
    pub data: Option<Vec<u8>>,
}

/// The arguments of one OS mount call, with the source already resolved.
#[derive(Debug)]
pub struct MountCall {
    pub source: Option<Vec<u8>>,
    pub target: Vec<u8>,
    pub fstype: Option<Vec<u8>>,
    pub flags: u64,
    pub data: Option<Vec<u8>>,
}

/// The bytes an optional byte vector holds.
pub open spec fn opt_view(o: Option<Vec<u8>>) -> Option<Seq<u8>> {
    match o {
        Some(v) => Some(v@),
        None => None,
    }
}

/// The bytes an optional borrowed byte vector holds.
pub open spec fn opt_ref_view(o: Option<&Vec<u8>>) -> Option<Seq<u8>> {
    match o {
        Some(v) => Some(v@),
        None => None,
    }
}

/// What source the mount call uses: a literal source is used as it is, the
/// `rootdev` sentinel is replaced by the resolved device (or by no source at
/// all when none was resolved), and an absent source stays absent.
pub open spec fn resolved_source(src: Option<Seq<u8>>, resolved: Option<Seq<u8>>) -> Option<Seq<u8>> {
    match src {
        None => None,
        Some(s) => if s == rootdev_name() {
            resolved
        } else {
            Some(s)
        },
    }
}

impl Mountpoint {
    /// Builds the record from its parts.
    pub fn new(
        src: Option<Vec<u8>>,
        target: Vec<u8>,
        fstype: Option<Vec<u8>>,
        flags: MountpointFlags,
        data: Option<Vec<u8>>,
    ) -> (r: Self)
        ensures
            r.src == src,
            r.target == target,
            r.fstype == fstype,
            r.flags == flags,
            r.data == data,
    {
        Mountpoint { src, target, fstype, flags, data }
    }

    /// The mount target.
    pub fn target(&self) -> (r: &Vec<u8>)
        ensures
            r@ == self.target@,
    {
        &self.target
    }

    /// The mount source, if the record has one.
    pub fn src(&self) -> (r: &Option<Vec<u8>>)
        ensures
            *r == self.src,
    {
        &self.src
    }

    /// The filesystem type, if the record has one.
    pub fn fstype(&self) -> (r: &Option<Vec<u8>>)
        ensures
            *r == self.fstype,
    {
        &self.fstype
    }

    /// The filesystem-specific data string, if the record has one.
    pub fn data(&self) -> (r: &Option<Vec<u8>>)
        ensures
            *r == self.data,
    {
        &self.data
    }

    /// Whether the record's source is the `rootdev` sentinel.
    pub fn wants_rootdev(&self) -> (r: bool)
        ensures
            r == (self.src matches Some(s) && s@ == rootdev_name()),
    {
        match &self.src {
            Some(s) => s.matches(
                ['r' as u8, 'o' as u8, 'o' as u8, 't' as u8, 'd' as u8, 'e' as u8, 'v' as u8]
                    .as_slice(),
            ),
            None => false,
        }
    }

    /// Lays out the one OS mount call this record stands for, substituting
    /// `resolved` for the `rootdev` sentinel.
    pub fn mount_call(&self, resolved: Option<&Vec<u8>>) -> (r: MountCall)
        ensures
            r.target@ == self.target@,
            r.flags == self.flags.mask(),
            opt_view(r.fstype) == opt_view(self.fstype),
            opt_view(r.data) == opt_view(self.data),
            opt_view(r.source) == resolved_source(opt_view(self.src), opt_ref_view(resolved)),
    {
        let source: Option<Vec<u8>> = if self.wants_rootdev() {
            match resolved {
                Some(d) => Some(d.copied()),
                None => None,
            }
        } else {
            match &self.src {
                Some(s) => Some(s.copied()),
                None => None,
            }
        };
        let fstype: Option<Vec<u8>> = match &self.fstype {
            Some(t) => Some(t.copied()),
            None => None,
        };
        let data: Option<Vec<u8>> = match &self.data {
            Some(d) => Some(d.copied()),
            None => None,
        };
        MountCall {
            source,
            target: self.target.copied(),
            fstype,
            flags: self.flags.flags(),
            data,
        }
    }
}

/// The distinguished pre-step record: remount `/` with the recursive and
/// private options and nothing else, so that a later move of the root mount
/// is not refused over a shared ancestor mount.
pub fn private_remount_record() -> (r: Mountpoint)
    ensures
        r.src is None,
        r.fstype is None,
        r.data is None,
        r.target@ == root_path(),
        r.flags == with_flags(no_flags(), seq![MountFlag::Recursive, MountFlag::Private]),
{
    let flags = MountpointFlags::new([MountFlag::Recursive, MountFlag::Private].as_slice());
    let target = Vec::new(['/' as u8].as_slice());
    proof {
        assert(target@ =~= root_path());
    }
    Mountpoint::new(None, target, None, flags, None)
}

} // verus!
