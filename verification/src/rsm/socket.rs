//! The socket layer: socket records, the global socket pool that owns every
//! OS file descriptor, and the load-balance rule that picks the task instance
//! a new TCP connection is handed to.
//!
//! The pool holds one slot per socket ID. Creating a socket fills a slot and
//! records the owner; only the owner may close it; closing frees the slot,
//! hands the file descriptor back to the caller to be closed exactly once,
//! and makes the ID reusable.

use vstd::prelude::*;
use crate::common::errcode;
use crate::common::tsidallocator::TsIdAllocator;
use crate::rsm::rsm_component_t;

verus! {

#[derive(Clone, Debug, PartialEq, Eq, Structural, Copy)]
pub enum SOCKET_ADDRESS_FAMILY {
    SOCKET_INET,
    SOCKET_INET6,
    SOCKET_RAW_PACKET,
}

#[derive(Clone, Debug, PartialEq, Eq, Structural, Copy)]
pub enum SOCKET_TYPE {
    PROTO_RAW,
    PROTO_DGRAM,
    PROTO_STREAM,
}

#[derive(Clone, Debug, PartialEq, Eq, Structural, Copy)]
pub enum SOCKET_STATE {
    SOCK_INIT,
    SOCK_BIND,
    SOCK_LISTENING,
    SOCK_CONNECTING,
    SOCK_CONNECTED,
}

/// How a TCP listener dispatches accepted connections over the instances of
/// its owning component.
#[derive(Clone, Debug, PartialEq, Eq, Structural, Copy)]
pub enum SOCKET_LB_POLICY {
    /// Hash the new socket ID across all instances.
    SOCK_LB_ALL_INSTANCE,
    /// Deliver only to the instance that created the listener.
    SOCK_LB_CALLER_INSTANCE,
    /// Hash across the other instances; with a single instance, fall back to
    /// the caller.
    SOCK_LB_EXCLUDE_CALLER_INSTANCE,
}

/// A socket address as plain values: up to 16 address bytes and a port.
/// IPv4 addresses use the first four bytes.
#[derive(Clone, Copy, Debug)]
pub struct sock_addr_t {
    pub ip: [u8; 16],
    pub port: u16,
    pub is_v4: bool,
}

impl sock_addr_t {
    pub fn new_zero() -> (r: Self)
        ensures
            r.port == 0,
    {
        Self { ip: [0u8; 16], port: 0, is_v4: true }
    }
}

/// One socket record: the OS descriptor, its kind, its lifecycle state, and,
/// for TCP listeners, the load-balance policy.
#[derive(Clone, Copy, Debug)]
pub struct Socket {
    pub sock_id: i32,
    pub os_fd: i64,
    pub sock_af: SOCKET_ADDRESS_FAMILY,
    pub sock_type: SOCKET_TYPE,
    pub proto: u8,
    pub state: SOCKET_STATE,
    pub tcp_server: bool,
    pub lb_policy: SOCKET_LB_POLICY,
    pub local_addr: sock_addr_t,
    pub peer_addr: sock_addr_t,
}

impl Socket {
    /// A fresh record for an already-created, non-blocking OS socket.
    pub fn new_socket(sid: i32, sock_af: SOCKET_ADDRESS_FAMILY, sock_type: SOCKET_TYPE, proto: u8, os_fd: i64) -> (r:
        Self)
        ensures
            r.sock_id == sid,
            r.os_fd == os_fd,
            r.sock_af == sock_af,
            r.sock_type == sock_type,
            r.proto == proto,
            r.state == SOCKET_STATE::SOCK_INIT,
            !r.tcp_server,
            r.lb_policy == SOCKET_LB_POLICY::SOCK_LB_ALL_INSTANCE,
    {
        Self {
            sock_id: sid,
            os_fd,
            sock_af,
            sock_type,
            proto,
            state: SOCKET_STATE::SOCK_INIT,
            tcp_server: false,
            lb_policy: SOCKET_LB_POLICY::SOCK_LB_ALL_INSTANCE,
            local_addr: sock_addr_t::new_zero(),
            peer_addr: sock_addr_t::new_zero(),
        }
    }

    /// Record a successful bind. Only a fresh socket can be bound.
    pub fn set_bound(&mut self, local: sock_addr_t) -> (res: errcode::RESULT)
        ensures
            old(self).state == SOCKET_STATE::SOCK_INIT ==> res == errcode::RESULT_SUCCESS
                && *final(self) == (Socket {
                state: SOCKET_STATE::SOCK_BIND,
                local_addr: local,
                ..*old(self)
            }),
            old(self).state != SOCKET_STATE::SOCK_INIT ==> res == errcode::ERROR_INVALID_STATE
                && *final(self) == *old(self),
    {
        if self.state == SOCKET_STATE::SOCK_INIT {
            self.state = SOCKET_STATE::SOCK_BIND;
            self.local_addr = local;
            errcode::RESULT_SUCCESS
        } else {
            errcode::ERROR_INVALID_STATE
        }
    }

    /// Record a successful listen: the socket becomes a TCP server. Only a
    /// bound stream socket can listen.
    pub fn set_listening(&mut self) -> (res: errcode::RESULT)
        ensures
            old(self).state == SOCKET_STATE::SOCK_BIND && old(self).sock_type
                == SOCKET_TYPE::PROTO_STREAM ==> res == errcode::RESULT_SUCCESS
                && *final(self) == (Socket {
                state: SOCKET_STATE::SOCK_LISTENING,
                tcp_server: true,
                ..*old(self)
            }),
            !(old(self).state == SOCKET_STATE::SOCK_BIND && old(self).sock_type
                == SOCKET_TYPE::PROTO_STREAM) ==> res == errcode::ERROR_INVALID_STATE
                && *final(self) == *old(self),
    {
        if self.state == SOCKET_STATE::SOCK_BIND && self.sock_type == SOCKET_TYPE::PROTO_STREAM {
            self.state = SOCKET_STATE::SOCK_LISTENING;
            self.tcp_server = true;
            errcode::RESULT_SUCCESS
        } else {
            errcode::ERROR_INVALID_STATE
        }
    }

    /// Record a connected peer, as for an accepted TCP client socket.
    pub fn set_connected(&mut self, peer: sock_addr_t)
        ensures
            *final(self) == (Socket {
                state: SOCKET_STATE::SOCK_CONNECTED,
                peer_addr: peer,
                ..*old(self)
            }),
    {
        self.state = SOCKET_STATE::SOCK_CONNECTED;
        self.peer_addr = peer;
    }

    pub fn set_lb_policy(&mut self, policy: SOCKET_LB_POLICY)
        ensures
            *final(self) == (Socket { lb_policy: policy, ..*old(self) }),
    {
        self.lb_policy = policy;
    }

    pub fn get_lb_policy(&self) -> (r: SOCKET_LB_POLICY)
        ensures
            r == self.lb_policy,
    {
        self.lb_policy
    }

    pub fn is_tcp_server(&self) -> (r: bool)
        ensures
            r == self.tcp_server,
    {
        self.tcp_server
    }

    pub fn get_sock_type(&self) -> (r: SOCKET_TYPE)
        ensures
            r == self.sock_type,
    {
        self.sock_type
    }

    pub fn get_socket_id(&self) -> (r: i32)
        ensures
            r == self.sock_id,
    {
        self.sock_id
    }

    pub fn get_raw_fd(&self) -> (r: i64)
        ensures
            r == self.os_fd,
    {
        self.os_fd
    }

    pub fn get_local_addr(&self) -> (r: sock_addr_t)
        ensures
            r == self.local_addr,
    {
        self.local_addr
    }

    pub fn get_peer_addr(&self) -> (r: sock_addr_t)
        ensures
            r == self.peer_addr,
    {
        self.peer_addr
    }
}

/// Thin application handles; the state lives in the pool, keyed by socket ID.
#[derive(Clone, Debug)]
pub struct UdpSocket {
    pub sck_idx: i32,
}

#[derive(Clone, Debug)]
pub struct TcpListener {
    pub sck_idx: i32,
}

#[derive(Clone, Debug)]
pub struct TcpSocket {
    pub sck_idx: i32,
}

#[derive(Clone, Debug)]
pub struct RawSocket {
    pub sck_idx: i32,
}

/// A link-layer socket handle: the pool slot, the interface it is bound to,
/// and that interface's hardware address.
#[derive(Clone, Debug)]
pub struct PacketSocket {
    pub sck_idx: i32,
    pub if_idx: u32,
    pub mac: crate::net_ext::mac_addr::mac_addr_t,
}

impl UdpSocket {
    pub fn get_socket_by_id(id: i32) -> (r: Self)
        ensures
            r.sck_idx == id,
    {
        Self { sck_idx: id }
    }

    pub fn get_socket_id(&self) -> (r: i32)
        ensures
            r == self.sck_idx,
    {
        self.sck_idx
    }
}

impl TcpListener {
    pub fn get_sock_id(&self) -> (r: i32)
        ensures
            r == self.sck_idx,
    {
        self.sck_idx
    }
}

impl TcpSocket {
    pub fn get_socket_by_id(id: i32) -> (r: Self)
        ensures
            r.sck_idx == id,
    {
        Self { sck_idx: id }
    }

    pub fn get_socket_id(&self) -> (r: i32)
        ensures
            r == self.sck_idx,
    {
        self.sck_idx
    }
}

/// The instance an accepted connection is dispatched to, by the listener's
/// policy: `ALL_INSTANCE` hashes the socket ID over all `inst_num` instances
/// (`sock_id % inst_num + 1`); `CALLER_INSTANCE` keeps the listener's own
/// instance; `EXCLUDE_CALLER_INSTANCE` hashes over the other instances and
/// falls back to the caller when there is only one.
pub fn get_lb_task_id(
    caller: &rsm_component_t,
    sock_id: i32,
    policy: SOCKET_LB_POLICY,
    inst_num: usize,
) -> (dst: rsm_component_t)
    requires
        1 <= inst_num < usize::MAX,
        sock_id >= 0,
    ensures
        dst.cid == caller.cid,
        dst.node_id == caller.node_id,
        policy == SOCKET_LB_POLICY::SOCK_LB_ALL_INSTANCE ==> dst.inst_id == sock_id as int
            % inst_num as int + 1,
        policy == SOCKET_LB_POLICY::SOCK_LB_CALLER_INSTANCE ==> dst.inst_id == caller.inst_id,
        policy == SOCKET_LB_POLICY::SOCK_LB_EXCLUDE_CALLER_INSTANCE && inst_num <= 1 ==> dst.inst_id
            == caller.inst_id,
        policy == SOCKET_LB_POLICY::SOCK_LB_EXCLUDE_CALLER_INSTANCE && inst_num > 1 ==> 1
            <= dst.inst_id <= inst_num && (1 <= caller.inst_id <= inst_num ==> dst.inst_id
            != caller.inst_id),
{
    let mut dst = caller.clone();
    let inst: usize = match policy {
        SOCKET_LB_POLICY::SOCK_LB_ALL_INSTANCE => { (sock_id as usize) % inst_num + 1 },
        SOCKET_LB_POLICY::SOCK_LB_CALLER_INSTANCE => { caller.inst_id },
        SOCKET_LB_POLICY::SOCK_LB_EXCLUDE_CALLER_INSTANCE => {
            if inst_num <= 1 {
                return dst;
            }
            let mut vec_inst: Vec<usize> = Vec::new();
            let mut i: usize = 1;
            while i < inst_num + 1
                invariant
                    1 <= i <= inst_num + 1,
                    inst_num + 1 <= usize::MAX,
                    forall|j: int|
                        0 <= j < vec_inst@.len() ==> 1 <= #[trigger] vec_inst@[j] <= inst_num
                            && vec_inst@[j] != caller.inst_id,
                    vec_inst@.len() >= i - 1 - (if 1 <= caller.inst_id < i {
                        1int
                    } else {
                        0int
                    }),
                    vec_inst@.len() <= i,
                decreases inst_num + 1 - i,
            {
                if i != caller.inst_id {
                    vec_inst.push(i);
                }
                i = i + 1;
            }
            let idx = (sock_id as usize) % vec_inst.len();
            vec_inst[idx]
        },
    };
    dst.inst_id = inst;
    dst
}

/// Capacity of the socket ID space.
pub const MAX_SOCKET_NUM: usize = 131072;

/// One pool slot: the socket record and the identity that owns it.
#[derive(Clone, Copy, Debug)]
pub struct socket_info_t {
    pub s: Socket,
    pub owner: rsm_component_t,
}

/// The global socket table: one slot per dense socket ID, owner of every OS
/// file descriptor. Closing a socket frees its slot, surrenders the
/// descriptor to the caller to be closed exactly once, and makes the ID
/// reusable.
pub struct SocketPool {
    pub sock_ids: TsIdAllocator,
    pub sockets: Vec<Option<socket_info_t>>,
    pub capacity: usize,
}

impl SocketPool {
    /// A slot is filled exactly when its ID is allocated, and each record
    /// sits under its own ID.
    pub open spec fn wf(&self) -> bool {
        &&& self.sock_ids.wf()
        &&& self.sock_ids.start == 1
        &&& self.sock_ids.cap == MAX_SOCKET_NUM
        &&& self.capacity == MAX_SOCKET_NUM
        &&& self.sockets@.len() == MAX_SOCKET_NUM + 1
        &&& self.sockets@[0] is None
        &&& forall|i: int|
            1 <= i <= MAX_SOCKET_NUM ==> ((#[trigger] self.sockets@[i]) is Some
                <==> self.sock_ids.spec_is_used(i as i32))
        &&& forall|i: int|
            1 <= i <= MAX_SOCKET_NUM ==> ((#[trigger] self.sockets@[i]) matches Some(info)
                ==> info.s.sock_id == i)
    }

    /// Whether a socket with this ID is live.
    pub open spec fn spec_has_socket(&self, sock_id: i32) -> bool {
        1 <= sock_id <= MAX_SOCKET_NUM && self.sockets@[sock_id as int] is Some
    }

    /// An empty pool with every socket ID free.
    pub fn new() -> (r: Self)
        ensures
            r.wf(),
            forall|i: i32| !r.spec_has_socket(i),
    {
        let mut sockets: Vec<Option<socket_info_t>> = Vec::new();
        let mut i: usize = 0;
        while i <= MAX_SOCKET_NUM
            invariant
                i <= MAX_SOCKET_NUM + 1,
                sockets@.len() == i,
                forall|j: int| 0 <= j < i ==> (#[trigger] sockets@[j]) is None,
            decreases MAX_SOCKET_NUM + 1 - i,
        {
            sockets.push(None);
            i = i + 1;
        }
        SocketPool {
            sock_ids: TsIdAllocator::new(1, MAX_SOCKET_NUM as i32),
            sockets,
            capacity: MAX_SOCKET_NUM,
        }
    }

    /// Record a freshly created, non-blocking OS socket under a new ID owned
    /// by the caller. Fails with `OUT_OF_MEM` exactly when the ID space is
    /// exhausted.
    pub fn new_socket(
        &mut self,
        caller: rsm_component_t,
        sock_af: SOCKET_ADDRESS_FAMILY,
        sock_type: SOCKET_TYPE,
        proto: u8,
        os_fd: i64,
    ) -> (r: Result<i32, errcode::RESULT>)
        requires
            old(self).wf(),
        ensures
            final(self).wf(),
            r is Err <==> old(self).sock_ids.allocator@.len() == 0,
            r is Err ==> r == Result::<i32, errcode::RESULT>::Err(errcode::ERROR_OUTOF_MEM)
                && final(self).sockets@ == old(self).sockets@,
            r matches Ok(sid) ==> {
                &&& 1 <= sid <= MAX_SOCKET_NUM
                &&& !old(self).spec_has_socket(sid)
                &&& final(self).spec_has_socket(sid)
                &&& final(self).sockets@[sid as int] matches Some(info) && info.owner == caller
                    && info.s.sock_id == sid && info.s.os_fd == os_fd && info.s.sock_af == sock_af
                    && info.s.sock_type == sock_type && info.s.proto == proto && info.s.state
                    == SOCKET_STATE::SOCK_INIT
                &&& forall|k: int|
                    1 <= k <= MAX_SOCKET_NUM && k != sid ==> (#[trigger] final(self).sockets@[k])
                        == old(self).sockets@[k]
            },
    {
        let sid = self.sock_ids.allocate_id();
        if sid == TsIdAllocator::INVALID_ID {
            return Err(errcode::ERROR_OUTOF_MEM);
        }
        let sock = Socket::new_socket(sid, sock_af, sock_type, proto, os_fd);
        let info = socket_info_t { s: sock, owner: caller };
        self.sockets.set(sid as usize, Some(info));
        Ok(sid)
    }

    /// Close a socket on behalf of its owner. `NOT_FOUND` for an unknown ID,
    /// `NO_PERMISSION` when the caller does not own it; otherwise the slot
    /// is freed, the ID becomes reusable, and the OS descriptor is handed
    /// back to be closed — exactly once, since the slot is now empty.
    pub fn close_socket(&mut self, caller: rsm_component_t, sock_idx: i32) -> (r: Result<
        i64,
        errcode::RESULT,
    >)
        requires
            old(self).wf(),
        ensures
            final(self).wf(),
            !old(self).spec_has_socket(sock_idx) ==> r == Result::<i64, errcode::RESULT>::Err(
                errcode::ERROR_NOT_FOUND,
            ) && final(self).sockets@ == old(self).sockets@,
            old(self).spec_has_socket(sock_idx) && old(self).sockets@[sock_idx as int]->Some_0.owner
                != caller ==> r == Result::<i64, errcode::RESULT>::Err(errcode::ERROR_NO_PERMISSION)
                && final(self).sockets@ == old(self).sockets@,
            old(self).spec_has_socket(sock_idx) && old(self).sockets@[sock_idx as int]->Some_0.owner
                == caller ==> {
                &&& r == Result::<i64, errcode::RESULT>::Ok(
                    old(self).sockets@[sock_idx as int]->Some_0.s.os_fd,
                )
                &&& !final(self).spec_has_socket(sock_idx)
                &&& final(self).sockets@ == old(self).sockets@.update(sock_idx as int, None)
                &&& !final(self).sock_ids.spec_is_used(sock_idx)
            },
    {
        if sock_idx < 1 || sock_idx as usize > MAX_SOCKET_NUM {
            return Err(errcode::ERROR_NOT_FOUND);
        }
        let fd = match &self.sockets[sock_idx as usize] {
            None => { return Err(errcode::ERROR_NOT_FOUND) },
            Some(info) => {
                if !(info.owner.cid == caller.cid && info.owner.node_id == caller.node_id
                    && info.owner.inst_id == caller.inst_id) {
                    return Err(errcode::ERROR_NO_PERMISSION);
                }
                info.s.os_fd
            },
        };
        self.sockets.set(sock_idx as usize, None);
        self.sock_ids.release_id(sock_idx);
        Ok(fd)
    }

    /// Close a socket from inside the pool (on a CLOSE or ERR event), with
    /// no ownership check: the slot is freed before the event message is
    /// sent, and the descriptor is handed back to be closed exactly once.
    pub fn close_socket_internal(&mut self, sock_idx: i32) -> (r: Result<i64, errcode::RESULT>)
        requires
            old(self).wf(),
        ensures
            final(self).wf(),
            !old(self).spec_has_socket(sock_idx) ==> r == Result::<i64, errcode::RESULT>::Err(
                errcode::ERROR_NOT_FOUND,
            ) && final(self).sockets@ == old(self).sockets@,
            old(self).spec_has_socket(sock_idx) ==> {
                &&& r == Result::<i64, errcode::RESULT>::Ok(
                    old(self).sockets@[sock_idx as int]->Some_0.s.os_fd,
                )
                &&& !final(self).spec_has_socket(sock_idx)
                &&& final(self).sockets@ == old(self).sockets@.update(sock_idx as int, None)
                &&& !final(self).sock_ids.spec_is_used(sock_idx)
            },
    {
        if sock_idx < 1 || sock_idx as usize > MAX_SOCKET_NUM {
            return Err(errcode::ERROR_NOT_FOUND);
        }
        let fd = match &self.sockets[sock_idx as usize] {
            None => { return Err(errcode::ERROR_NOT_FOUND) },
            Some(info) => info.s.os_fd,
        };
        self.sockets.set(sock_idx as usize, None);
        self.sock_ids.release_id(sock_idx);
        Ok(fd)
    }

    /// Whether this ID names a live TCP server socket.
    pub fn is_tcp_server(&self, sock_id: i32) -> (r: bool)
        requires
            self.wf(),
        ensures
            r == (self.spec_has_socket(sock_id)
                && self.sockets@[sock_id as int]->Some_0.s.tcp_server),
    {
        if sock_id < 1 || sock_id as usize > MAX_SOCKET_NUM {
            return false;
        }
        match &self.sockets[sock_id as usize] {
            None => false,
            Some(info) => info.s.is_tcp_server(),
        }
    }

    /// The owner of a live socket.
    pub fn get_owner(&self, sock_id: i32) -> (r: Option<rsm_component_t>)
        requires
            self.wf(),
        ensures
            self.spec_has_socket(sock_id) ==> r == Some(
                self.sockets@[sock_id as int]->Some_0.owner,
            ),
            !self.spec_has_socket(sock_id) ==> r is None,
    {
        if sock_id < 1 || sock_id as usize > MAX_SOCKET_NUM {
            return None;
        }
        match &self.sockets[sock_id as usize] {
            None => None,
            Some(info) => Some(info.owner),
        }
    }

    /// The kind of a live socket.
    pub fn get_sock_type(&self, sock_id: i32) -> (r: Option<SOCKET_TYPE>)
        requires
            self.wf(),
        ensures
            self.spec_has_socket(sock_id) ==> r == Some(
                self.sockets@[sock_id as int]->Some_0.s.sock_type,
            ),
            !self.spec_has_socket(sock_id) ==> r is None,
    {
        if sock_id < 1 || sock_id as usize > MAX_SOCKET_NUM {
            return None;
        }
        match &self.sockets[sock_id as usize] {
            None => None,
            Some(info) => Some(info.s.get_sock_type()),
        }
    }

    /// A copy of a live socket's record.
    pub fn get_socket_by_idx(&self, sock_id: i32) -> (r: Option<Socket>)
        requires
            self.wf(),
        ensures
            self.spec_has_socket(sock_id) ==> r == Some(self.sockets@[sock_id as int]->Some_0.s),
            !self.spec_has_socket(sock_id) ==> r is None,
    {
        if sock_id < 1 || sock_id as usize > MAX_SOCKET_NUM {
            return None;
        }
        match &self.sockets[sock_id as usize] {
            None => None,
            Some(info) => Some(info.s.clone()),
        }
    }

    /// Replace the record of a live socket, keeping its ID; used to record
    /// bind, listen and policy changes decided elsewhere.
    pub fn update_socket(&mut self, sock_id: i32, sock: Socket) -> (res: errcode::RESULT)
        requires
            old(self).wf(),
            sock.sock_id == sock_id,
        ensures
            final(self).wf(),
            !old(self).spec_has_socket(sock_id) ==> res == errcode::ERROR_NOT_FOUND && final(self).sockets@ == old(self).sockets@,
            old(self).spec_has_socket(sock_id) ==> res == errcode::RESULT_SUCCESS && final(self).sockets@ == old(self).sockets@.update(
                sock_id as int,
                Some(
                    socket_info_t {
                        s: sock,
                        owner: old(self).sockets@[sock_id as int]->Some_0.owner,
                    },
                ),
            ),
    {
        if sock_id < 1 || sock_id as usize > MAX_SOCKET_NUM {
            return errcode::ERROR_NOT_FOUND;
        }
        let owner = match &self.sockets[sock_id as usize] {
            None => { return errcode::ERROR_NOT_FOUND },
            Some(info) => info.owner,
        };
        self.sockets.set(sock_id as usize, Some(socket_info_t { s: sock, owner }));
        errcode::RESULT_SUCCESS
    }

    /// Register an accepted TCP client connection: allocate a slot for the
    /// already-accepted descriptor and pick the owning instance by the
    /// listener's load-balance policy over the component's `inst_num`.
    /// `OUT_OF_MEM` when no ID is left; `NOT_FOUND` when the server ID names
    /// no live socket; `INVALID_STATE` when it is not a listening TCP
    /// server.
    pub fn accept(
        &mut self,
        server_idx: i32,
        client_fd: i64,
        peer: sock_addr_t,
        inst_num: usize,
    ) -> (r: Result<i32, errcode::RESULT>)
        requires
            old(self).wf(),
            1 <= inst_num < usize::MAX,
        ensures
            final(self).wf(),
            old(self).sock_ids.allocator@.len() == 0 ==> r == Result::<i32, errcode::RESULT>::Err(
                errcode::ERROR_OUTOF_MEM,
            ) && final(self).sockets@ == old(self).sockets@,
            old(self).sock_ids.allocator@.len() > 0 && !old(self).spec_has_socket(server_idx) ==> r
                == Result::<i32, errcode::RESULT>::Err(errcode::ERROR_NOT_FOUND) && final(self).sockets@ == old(self).sockets@,
            old(self).sock_ids.allocator@.len() > 0 && old(self).spec_has_socket(server_idx) && !({
                let srv = old(self).sockets@[server_idx as int]->Some_0.s;
                srv.tcp_server && srv.state == SOCKET_STATE::SOCK_LISTENING
            }) ==> r == Result::<i32, errcode::RESULT>::Err(errcode::ERROR_INVALID_STATE) && final(self).sockets@ == old(self).sockets@,
            old(self).sock_ids.allocator@.len() > 0 && old(self).spec_has_socket(server_idx) && ({
                let srv = old(self).sockets@[server_idx as int]->Some_0.s;
                srv.tcp_server && srv.state == SOCKET_STATE::SOCK_LISTENING
            }) ==> r is Ok,
            r matches Ok(sid) ==> {
                let srv = old(self).sockets@[server_idx as int]->Some_0;
                &&& old(self).spec_has_socket(server_idx)
                &&& srv.s.tcp_server && srv.s.state == SOCKET_STATE::SOCK_LISTENING
                &&& 1 <= sid <= MAX_SOCKET_NUM
                &&& !old(self).spec_has_socket(sid)
                &&& final(self).spec_has_socket(sid)
                &&& final(self).sockets@[sid as int] matches Some(info) && info.s.sock_id == sid
                    && info.s.os_fd == client_fd && info.s.sock_type == SOCKET_TYPE::PROTO_STREAM
                    && info.s.state == SOCKET_STATE::SOCK_CONNECTED && info.s.peer_addr == peer
                    && info.owner.cid == srv.owner.cid && info.owner.node_id == srv.owner.node_id
                    && (srv.s.lb_policy == SOCKET_LB_POLICY::SOCK_LB_ALL_INSTANCE
                    ==> info.owner.inst_id == sid as int % inst_num as int + 1) && (srv.s.lb_policy
                    == SOCKET_LB_POLICY::SOCK_LB_CALLER_INSTANCE ==> info.owner.inst_id
                    == srv.owner.inst_id)
                &&& forall|k: int|
                    1 <= k <= MAX_SOCKET_NUM && k != sid ==> (#[trigger] final(self).sockets@[k])
                        == old(self).sockets@[k]
            },
    {
        let sid = self.sock_ids.allocate_id();
        if sid == TsIdAllocator::INVALID_ID {
            return Err(errcode::ERROR_OUTOF_MEM);
        }
        if server_idx < 1 || server_idx as usize > MAX_SOCKET_NUM {
            self.sock_ids.release_id(sid);
            return Err(errcode::ERROR_NOT_FOUND);
        }
        let (server_sock, server_owner) = match &self.sockets[server_idx as usize] {
            None => {
                self.sock_ids.release_id(sid);
                return Err(errcode::ERROR_NOT_FOUND);
            },
            Some(info) => (info.s.clone(), info.owner),
        };
        if !server_sock.is_tcp_server() || !(server_sock.state == SOCKET_STATE::SOCK_LISTENING) {
            self.sock_ids.release_id(sid);
            return Err(errcode::ERROR_INVALID_STATE);
        }
        let mut client = Socket::new_socket(
            sid,
            server_sock.sock_af,
            SOCKET_TYPE::PROTO_STREAM,
            server_sock.proto,
            client_fd,
        );
        client.set_connected(peer);
        let dst = get_lb_task_id(&server_owner, sid, server_sock.get_lb_policy(), inst_num);
        let info = socket_info_t { s: client, owner: dst };
        self.sockets.set(sid as usize, Some(info));
        Ok(sid)
    }

    /// Take a fresh socket ID without filling its slot yet.
    pub fn allocate_socket_id(&mut self) -> (r: Result<i32, errcode::RESULT>)
        requires
            old(self).wf(),
        ensures
            final(self).sock_ids.wf(),
            final(self).sockets@ == old(self).sockets@,
            r is Err <==> old(self).sock_ids.allocator@.len() == 0,
            r is Err ==> r == Result::<i32, errcode::RESULT>::Err(errcode::ERROR_OUTOF_MEM),
            r matches Ok(id) ==> 1 <= id <= MAX_SOCKET_NUM && !old(self).sock_ids.spec_is_used(id)
                && final(self).sock_ids.spec_is_used(id),
    {
        let id = self.sock_ids.allocate_id();
        if id == TsIdAllocator::INVALID_ID {
            return Err(errcode::ERROR_OUTOF_MEM);
        }
        Ok(id)
    }

    /// Return a socket ID whose slot was never filled.
    pub fn release_socket_id(&mut self, id: i32) -> (res: errcode::RESULT)
        requires
            old(self).wf(),
        ensures
            final(self).sock_ids.wf(),
            final(self).sockets@ == old(self).sockets@,
    {
        self.sock_ids.release_id(id)
    }

    /// How many sockets are live.
    pub fn get_used_count(&self) -> (r: i32)
        requires
            self.wf(),
        ensures
            r == self.sock_ids.cap - self.sock_ids.allocator@.len(),
    {
        self.sock_ids.used_count()
    }

    /// The size of the socket ID space.
    pub fn capacity(&self) -> (r: usize)
        ensures
            r == self.capacity,
    {
        self.capacity
    }
}

/// A closed socket's descriptor leaves the table with the close that freed
/// it: once a slot is empty, no later close of the same ID can yield a
/// descriptor again until the ID is reused by a new socket.
pub proof fn lemma_close_is_final(p: &SocketPool, sock_id: i32)
    requires
        p.wf(),
        !p.spec_has_socket(sock_id),
    ensures
        1 <= sock_id <= MAX_SOCKET_NUM ==> !p.sock_ids.spec_is_used(sock_id),
{
}

} // verus!
