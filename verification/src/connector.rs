//! The connector: resolved credentials for one room, host selection, and the
//! computed connection plan. The two REST calls that produce the credentials
//! are external collaborators and live outside this library.

use vstd::prelude::*;

verus! {

use crate::packet::Auth;
use crate::text::dec_chars;
use crate::text::push_dec;
use vstd::string::StringExecFns;

/// The URL a host's push socket is reached at.
pub open spec fn wss_chars(host: Seq<char>, port: u16) -> Seq<char> {
    "wss://"@ + host + ":"@ + dec_chars(port as nat) + "/sub"@
}

/// One candidate push host.
#[derive(Debug, Clone)]
pub struct Host {
    pub host: String,
    pub wss_port: u16,
}

/// The mathematical value of one host entry.
pub struct HostModel {
    pub host: Seq<char>,
    pub wss_port: u16,
}

impl View for Host {
    type V = HostModel;

    open spec fn view(&self) -> HostModel {
        HostModel { host: self.host@, wss_port: self.wss_port }
    }
}

impl DeepView for Host {
    type V = HostModel;

    open spec fn deep_view(&self) -> HostModel {
        self.view()
    }
}

impl Host {
    /// The connection URL for this host.
    pub fn wss(&self) -> (r: String)
        ensures
            r@ == wss_chars(self.host@, self.wss_port),
    {
        let mut s = String::new();
        s.append("wss://");
        proof {
            assert(Seq::<char>::empty() + "wss://"@ =~= "wss://"@);
        }
        s.append(self.host.as_str());
        s.append(":");
        push_dec(&mut s, self.wss_port as u64);
        s.append("/sub");
        s
    }
}

/// Why a connection attempt fails before or during the handshake.
#[derive(Debug)]
pub enum ConnectError {
    HostListIsEmpty,
    HandshakeError,
    WsError(String),
}

/// Resolved credentials for one room: canonical room id, user id, session
/// token, and the ordered candidate hosts with the selected index.
#[derive(Debug, Clone)]
pub struct Connector {
    pub roomid: u64,
    pub uid: u64,
    pub token: String,
    pub host_index: usize,
    pub host_list: Vec<Host>,
}

impl Connector {
    /// Assembles the connector from resolved credentials; the first host is
    /// selected.
    pub fn new(roomid: u64, uid: u64, token: String, host_list: Vec<Host>) -> (r: Self)
        ensures
            r.roomid == roomid,
            r.uid == uid,
            r.token == token,
            r.host_list == host_list,
            r.host_index == 0,
    {
        Connector { roomid, uid, token, host_index: 0, host_list }
    }

    /// Selects the host to connect to; an out-of-range index is rejected and
    /// reports the list length, leaving the selection unchanged.
    pub fn use_host(&mut self, index: usize) -> (r: Result<&str, usize>)
        ensures
            index < old(self).host_list@.len() ==> (r matches Ok(h) && h@ == old(
                self,
            ).host_list@[index as int].host@ && *final(self) == (Connector {
                host_index: index,
                ..*old(self)
            })),
            index >= old(self).host_list@.len() ==> (r matches Err(n) && n == old(
                self,
            ).host_list@.len() && *final(self) == *old(self)),
    {
        if self.host_list.len() > index {
            self.host_index = index;
            Ok(self.host_list[index].host.as_str())
        } else {
            Err(self.host_list.len())
        }
    }

    /// The connection plan: the selected host's URL and the Auth message to
    /// send, or the immediate failure when the host list is empty. No I/O
    /// happens here.
    pub fn prepare_connect(&self) -> (r: Result<(String, Auth), ConnectError>)
        requires
            self.host_list@.len() == 0 || self.host_index < self.host_list@.len(),
        ensures
            self.host_list@.len() == 0 <==> r is Err,
            r is Err ==> r matches Err(ConnectError::HostListIsEmpty),
            r matches Ok(p) ==> {
                let selected = self.host_list@[self.host_index as int];
                &&& p.0@ == wss_chars(selected.host@, selected.wss_port)
                &&& p.1.spec_uid() == self.uid
                &&& p.1.spec_roomid() == self.roomid
                &&& p.1.spec_key() matches Some(k) && k == self.token@
            },
    {
        if self.host_list.is_empty() {
            return Err(ConnectError::HostListIsEmpty);
        }
        let url = self.host_list[self.host_index].wss();
        let auth = Auth::new(self.uid, self.roomid, Some(self.token.clone()));
        Ok((url, auth))
    }
}

} // verus!
