use vstd::prelude::*;

verus! {

/// The process table entry of a running process.
#[verifier::external_type_specification]
#[verifier::external_body]
pub struct ExProcess(procfs::process::Process);

/// One open file descriptor of a process, as far as correlation cares.
#[derive(Debug, Clone, Copy, PartialEq, Eq, Structural)]
pub enum FdEntry {
    /// A socket, with its kernel inode number.
    Socket(u64),
    /// Any other kind of descriptor.
    Other,
    /// A descriptor whose target could not be read.
    Unreadable,
}

/// One row of a kernel TCP connection table.
#[derive(Debug, Clone, Copy, PartialEq, Eq, Structural)]
pub struct TcpEntry {
    pub inode: u64,
    pub local_port: u16,
}

/// Relies on `procfs::process::Process::new`: `None` where `/proc/<pid>` cannot be
/// opened, as for a process that no longer exists.
#[verifier::external_body]
fn open_process(pid: u32) -> (r: Option<procfs::process::Process>) {
    procfs::process::Process::new(pid as i32).ok()
}

/// Relies on `procfs::process::Process::fd`: the open descriptors of the process,
/// each read as a socket inode, another target, or unreadable.
#[verifier::external_body]
fn descriptors(p: &procfs::process::Process) -> (r: Option<Vec<FdEntry>>) {
    p.fd().ok().map(|fds| {
        fds.map(|f| match f {
            Ok(info) => match info.target {
                procfs::process::FDTarget::Socket(inode) => FdEntry::Socket(inode),
                _ => FdEntry::Other,
            },
            Err(_) => FdEntry::Unreadable,
        }).collect()
    })
}

/// Relies on `procfs::net::tcp`: the rows of `/proc/net/tcp`, by inode and local port.
#[verifier::external_body]
fn tcp4_table() -> (r: Option<Vec<TcpEntry>>) {
    procfs::net::tcp().ok().map(|t| t.iter().map(|e| TcpEntry { inode: e.inode, local_port: e.local_address.port() }).collect())
}

/// Relies on `procfs::net::tcp6`: the rows of `/proc/net/tcp6`, by inode and local port.
#[verifier::external_body]
fn tcp6_table() -> (r: Option<Vec<TcpEntry>>) {
    procfs::net::tcp6().ok().map(|t| t.iter().map(|e| TcpEntry { inode: e.inode, local_port: e.local_address.port() }).collect())
}

/// The table holds a row for socket `inode` bound to local `port`.
pub open spec fn table_binds(t: Seq<TcpEntry>, inode: u64, port: u16) -> bool {
    exists|j: int| 0 <= j < t.len() && t[j].inode == inode && t[j].local_port == port
}

/// The descriptor is a socket that either table shows bound to local `port`.
pub open spec fn fd_binds(fd: FdEntry, tcp4: Seq<TcpEntry>, tcp6: Seq<TcpEntry>, port: u16) -> bool {
    match fd {
        FdEntry::Socket(inode) => table_binds(tcp4, inode, port) || table_binds(tcp6, inode, port),
        _ => false,
    }
}

/// One of the descriptors is a socket that either table shows bound to local `port`.
pub open spec fn owns_port(fds: Seq<FdEntry>, tcp4: Seq<TcpEntry>, tcp6: Seq<TcpEntry>, port: u16) -> bool {
    exists|i: int| 0 <= i < fds.len() && fd_binds(#[trigger] fds[i], tcp4, tcp6, port)
}

fn table_binds_exec(t: &Vec<TcpEntry>, inode: u64, port: u16) -> (r: bool)
    ensures
        r == table_binds(t@, inode, port),
{
    let mut j: usize = 0;
    while j < t.len()
        invariant
            j <= t@.len(),
            forall|k: int| 0 <= k < j ==> !(t@[k].inode == inode && t@[k].local_port == port),
        decreases t@.len() - j,
    {
        if t[j].inode == inode && t[j].local_port == port {
            return true;
        }
        j += 1;
    }
    false
}

/// Decides socket ownership from a process's descriptors and the two TCP tables:
/// true exactly where one of its sockets is bound to local `port`.
pub fn socket_owns_port(fds: &Vec<FdEntry>, tcp4: &Vec<TcpEntry>, tcp6: &Vec<TcpEntry>, port: u16) -> (r: bool)
    ensures
        r == owns_port(fds@, tcp4@, tcp6@, port),
{
    let mut i: usize = 0;
    while i < fds.len()
        invariant
            i <= fds@.len(),
            forall|k: int| 0 <= k < i ==> !fd_binds(#[trigger] fds@[k], tcp4@, tcp6@, port),
        decreases fds@.len() - i,
    {
        match fds[i] {
            FdEntry::Socket(inode) => {
                if table_binds_exec(tcp4, inode, port) || table_binds_exec(tcp6, inode, port) {
                    return true;
                }
            },
            _ => {},
        }
        i += 1;
    }
    false
}

/// A descriptor list with no socket in it owns no port.
pub proof fn lemma_no_sockets_no_port(fds: Seq<FdEntry>, tcp4: Seq<TcpEntry>, tcp6: Seq<TcpEntry>, port: u16)
    requires
        forall|i: int| 0 <= i < fds.len() ==> !(fds[i] is Socket),
    ensures
        !owns_port(fds, tcp4, tcp6, port),
{
}

/// A port that neither table lists as a local port is owned by no process.
pub proof fn lemma_unlisted_port_not_owned(fds: Seq<FdEntry>, tcp4: Seq<TcpEntry>, tcp6: Seq<TcpEntry>, port: u16)
    requires
        forall|j: int| 0 <= j < tcp4.len() ==> (#[trigger] tcp4[j]).local_port != port,
        forall|j: int| 0 <= j < tcp6.len() ==> (#[trigger] tcp6[j]).local_port != port,
    ensures
        !owns_port(fds, tcp4, tcp6, port),
{
}

/// The table as read, an unreadable one counting as empty.
pub open spec fn table_or_empty(t: Option<Seq<TcpEntry>>) -> Seq<TcpEntry> {
    match t {
        Some(t) => t,
        None => Seq::empty(),
    }
}

/// Ownership from what was read: a process or descriptor list that could not be
/// read owns nothing, and an unreadable table counts as empty.
pub open spec fn snapshot_owns(
    fds: Option<Seq<FdEntry>>,
    tcp4: Option<Seq<TcpEntry>>,
    tcp6: Option<Seq<TcpEntry>>,
    port: u16,
) -> bool {
    match fds {
        None => false,
        Some(f) => owns_port(f, table_or_empty(tcp4), table_or_empty(tcp6), port),
    }
}

pub open spec fn vec_view<T>(v: Option<Vec<T>>) -> Option<Seq<T>> {
    match v {
        Some(v) => Some(v@),
        None => None,
    }
}

/// Decides ownership from a snapshot of the descriptors (`None` where the process
/// or its descriptor list could not be read) and of the two tables.
pub fn owned_in_snapshot(
    fds: &Option<Vec<FdEntry>>,
    tcp4: &Option<Vec<TcpEntry>>,
    tcp6: &Option<Vec<TcpEntry>>,
    port: u16,
) -> (r: bool)
    ensures
        r == snapshot_owns(vec_view(*fds), vec_view(*tcp4), vec_view(*tcp6), port),
{
    let f = match fds {
        Some(f) => f,
        None => return false,
    };
    let empty: Vec<TcpEntry> = Vec::new();
    let t4 = match tcp4 {
        Some(t) => t,
        None => &empty,
    };
    let t6 = match tcp6 {
        Some(t) => t,
        None => &empty,
    };
    assert(empty@ =~= Seq::<TcpEntry>::empty());
    socket_owns_port(f, t4, t6, port)
}

/// Whether process `pid` now holds a TCP socket (IPv4 or IPv6) bound to local
/// `port`, with the snapshot it decided on. A process, a descriptor list or a table
/// that cannot be read counts as holding nothing: a missing process gives false.
pub fn is_port_owned_by_pid(pid: u32, port: u16) -> (r: (
    bool,
    Ghost<(Option<Seq<FdEntry>>, Option<Seq<TcpEntry>>, Option<Seq<TcpEntry>>)>,
))
    ensures
        r.0 == snapshot_owns(r.1@.0, r.1@.1, r.1@.2, port),
{
    let fds = match open_process(pid) {
        Some(p) => descriptors(&p),
        None => None,
    };
    let tcp4 = tcp4_table();
    let tcp6 = tcp6_table();
    let owned = owned_in_snapshot(&fds, &tcp4, &tcp6, port);
    (owned, Ghost((vec_view(fds), vec_view(tcp4), vec_view(tcp6))))
}

} // verus!
