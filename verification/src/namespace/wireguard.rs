//! Clients on the namespace's network.
use vstd::prelude::*;

use crate::broadcast::{targets, to_each};
use crate::ids::{ClientId, WorkerId};
use crate::namespace::{FollowUp, NamespaceStateMachine, WgPeer};
use crate::output::{ClientEvent, ClientEventView, NamespaceOutput};
use crate::text::{dotted, dotted_text};
use crate::types::{CommandView, NamespaceStatus, WorkerCommand};

verus! {

/// What the allocation of addresses asks of the workers.
#[derive(Debug, Clone, Copy, PartialEq, Eq)]
pub enum WgPeerOutput {
    AddPeer { peer_public_key: [u8; 32], peer_ip: u32 },
    RemovePeer { peer_public_key: [u8; 32] },
}

/// What came of a client's wish for an address.
#[derive(Debug, PartialEq, Eq)]
pub enum ConnectResult {
    Connected { client_ip: u32, outputs: Vec<WgPeerOutput> },
    Error { message: String },
}

impl NamespaceStateMachine {
    /// The commands for one output of the allocation: a client is added at the first worker whose
    /// fabric is up, and removed at all of them.
    pub open spec fn wg_commands(self, output: WgPeerOutput) -> Seq<(WorkerId, CommandView)> {
        let up = targets(self.workers.seq(), None);
        match output {
            WgPeerOutput::AddPeer { peer_public_key, peer_ip } => if up.len() > 0 {
                seq![
                    (
                        up[0],
                        CommandView::AddWireGuardPeer {
                            namespace_id: self.namespace_id,
                            peer_public_key,
                            peer_ip,
                            preshared_key: None,
                        },
                    ),
                ]
            } else {
                seq![]
            },
            WgPeerOutput::RemovePeer { peer_public_key } => to_each(
                up,
                CommandView::RemoveWireGuardPeer { peer_public_key },
            ),
        }
    }

    /// The commands for the outputs of the allocation, in order.
    pub open spec fn all_wg_commands(self, outputs: Seq<WgPeerOutput>) -> Seq<
        (WorkerId, CommandView),
    >
        decreases outputs.len(),
    {
        if outputs.len() == 0 {
            seq![]
        } else {
            self.all_wg_commands(outputs.drop_last()) + self.wg_commands(outputs.last())
        }
    }

    /// Asks for an address for a client. Only an active namespace has any.
    pub fn handle_connect(
        &self,
        client_id: ClientId,
        client_public_key: [u8; 32],
        worker_wg_public_key: [u8; 32],
        worker_endpoint: String,
        out: &mut NamespaceOutput,
    ) -> (r: Vec<FollowUp>)
        ensures
            self.status == NamespaceStatus::Active ==> final(out)@ == old(out)@ && r@ == seq![
                FollowUp::ConnectPeer {
                    client_id,
                    client_public_key,
                    worker_wg_public_key,
                    worker_endpoint,
                },
            ],
            self.status != NamespaceStatus::Active ==> r@.len() == 0 && final(out)@ == old(
                out,
            )@.with_client_event(
                client_id,
                ClientEventView::Error { message: "namespace is not active"@ },
            ),
    {
        let mut r: Vec<FollowUp> = Vec::new();
        if self.status != NamespaceStatus::Active {
            out.tell(client_id, ClientEvent::error("namespace is not active"));
        } else {
            r.push(
                FollowUp::ConnectPeer {
                    client_id,
                    client_public_key,
                    worker_wg_public_key,
                    worker_endpoint,
                },
            );
        }
        r
    }

    /// What a client is told of its wish for an address.
    pub open spec fn connect_answer(
        result: ConnectResult,
        worker_wg_public_key: [u8; 32],
        worker_endpoint: Seq<char>,
        subnet: Seq<char>,
    ) -> ClientEventView {
        match result {
            ConnectResult::Connected { client_ip, .. } => ClientEventView::ConnectResult {
                server_public_key: worker_wg_public_key,
                endpoint: worker_endpoint,
                client_ip: dotted(client_ip),
                subnet,
            },
            ConnectResult::Error { message } => ClientEventView::Error { message: message@ },
        }
    }

    /// The workers are told what the allocation asks for, and the client its address. `peers` are
    /// the clients that hold an address now.
    pub fn peer_connected(
        &mut self,
        client_id: ClientId,
        result: ConnectResult,
        peers: Vec<WgPeer>,
        worker_wg_public_key: [u8; 32],
        worker_endpoint: String,
        subnet: String,
        out: &mut NamespaceOutput,
    )
        ensures
            *final(self) == (NamespaceStateMachine { wg_peers: peers, ..*old(self) }),
            final(out)@ == old(out)@.with_commands(
                match result {
                    ConnectResult::Connected { outputs, .. } => old(self).all_wg_commands(
                        outputs@,
                    ),
                    ConnectResult::Error { .. } => seq![],
                },
            ).with_client_event(
                client_id,
                Self::connect_answer(result, worker_wg_public_key, worker_endpoint@, subnet@),
            ),
    {
        match result {
            ConnectResult::Connected { client_ip, outputs } => {
                self.apply_wg_outputs(&outputs, out);
                out.tell(
                    client_id,
                    ClientEvent::ConnectResult {
                        server_public_key: worker_wg_public_key,
                        endpoint: worker_endpoint,
                        client_ip: dotted_text(client_ip),
                        subnet,
                    },
                );
            },
            ConnectResult::Error { message } => {
                assert(out@ =~= old(out)@.with_commands(seq![]));
                out.tell(client_id, ClientEvent::Error { message });
            },
        }
        self.wg_peers = peers;
    }

    /// Asks to take a client's address back.
    pub fn handle_disconnect(&self, client_id: ClientId, client_public_key: [u8; 32]) -> (r: Vec<
        FollowUp,
    >)
        ensures
            r@ == seq![FollowUp::DisconnectPeer { client_id, client_public_key }],
    {
        let mut r: Vec<FollowUp> = Vec::new();
        r.push(FollowUp::DisconnectPeer { client_id, client_public_key });
        r
    }

    /// The workers are told what the allocation asks for, and the client that it is done.
    pub fn peer_disconnected(
        &mut self,
        client_id: ClientId,
        outputs: &Vec<WgPeerOutput>,
        peers: Vec<WgPeer>,
        out: &mut NamespaceOutput,
    )
        ensures
            *final(self) == (NamespaceStateMachine { wg_peers: peers, ..*old(self) }),
            final(out)@ == old(out)@.with_commands(
                old(self).all_wg_commands(outputs@),
            ).with_client_event(client_id, ClientEventView::Done),
    {
        self.apply_wg_outputs(outputs, out);
        out.tell(client_id, ClientEvent::Done);
        self.wg_peers = peers;
    }

    /// Tells the workers what the allocation asks for.
    pub fn apply_wg_outputs(&self, outputs: &Vec<WgPeerOutput>, out: &mut NamespaceOutput)
        ensures
            final(out)@ == old(out)@.with_commands(self.all_wg_commands(outputs@)),
    {
        let mut i: usize = 0;
        assert(outputs@.take(0) =~= Seq::<WgPeerOutput>::empty());
        assert(out@ =~= old(out)@.with_commands(self.all_wg_commands(outputs@.take(0))));
        while i < outputs.len()
            invariant
                i <= outputs@.len(),
                out@ == old(out)@.with_commands(self.all_wg_commands(outputs@.take(i as int))),
            decreases outputs@.len() - i,
        {
            assert(outputs@.take(i + 1).drop_last() =~= outputs@.take(i as int));
            assert(outputs@.take(i + 1).last() == outputs@[i as int]);
            self.apply_wg_output(&outputs[i], out);
            assert(out@ =~= old(out)@.with_commands(
                self.all_wg_commands(outputs@.take(i + 1)),
            ));
            i = i + 1;
        }
        assert(outputs@.take(i as int) =~= outputs@);
    }

    fn apply_wg_output(&self, output: &WgPeerOutput, out: &mut NamespaceOutput)
        ensures
            final(out)@ == old(out)@.with_commands(self.wg_commands(*output)),
    {
        let up: Vec<WorkerId> = self.active_worker_ids();
        match output {
            WgPeerOutput::AddPeer { peer_public_key, peer_ip } => {
                if up.len() > 0 {
                    out.command(
                        up[0].clone(),
                        WorkerCommand::AddWireGuardPeer {
                            namespace_id: self.namespace_id.clone(),
                            peer_public_key: *peer_public_key,
                            peer_ip: *peer_ip,
                            preshared_key: None,
                        },
                    );
                }
                assert(out@ =~= old(out)@.with_commands(self.wg_commands(*output)));
            },
            WgPeerOutput::RemovePeer { peer_public_key } => {
                let ghost all = self.wg_commands(*output);
                let mut i: usize = 0;
                assert(out@ =~= old(out)@.with_commands(all.take(0)));
                while i < up.len()
                    invariant
                        i <= up@.len(),
                        all == to_each(
                            up@,
                            CommandView::RemoveWireGuardPeer { peer_public_key: *peer_public_key },
                        ),
                        out@ == old(out)@.with_commands(all.take(i as int)),
                    decreases up@.len() - i,
                {
                    out.command(
                        up[i].clone(),
                        WorkerCommand::RemoveWireGuardPeer { peer_public_key: *peer_public_key },
                    );
                    assert(out@ =~= old(out)@.with_commands(all.take(i + 1)));
                    i = i + 1;
                }
                assert(all.take(i as int) =~= all);
            },
        }
    }
}

} // verus!
