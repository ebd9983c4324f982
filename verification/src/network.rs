//! The network task: classifies incoming wire messages into internal
//! events, turns outbound events into addressed wire messages, and
//! filters which events each role's task services.

use vstd::prelude::*;

use crate::certificate::{DACertificate, ViewSyncCertificate};
use crate::data::Transaction;
use crate::election::{Membership, StaticCommittee};
use crate::message::{
    CommitteeConsensusMessage, ConsensusMessage, DAProposal, DAVote,
    GeneralConsensusMessage, QuorumVote, ViewSyncVote, CommitmentProposal,
    spec_quorum_vote_view_number, spec_view_sync_vote_internal,
};
use crate::signature::{EncodedPublicKey, EncodedSignature, PublicKey};

verus! {

/// Which role's outbound traffic a network task serves.
#[derive(Clone, Copy, Debug, PartialEq, Eq, Structural)]
pub enum NetworkTaskKind {
    /// The quorum's proposals and votes.
    Quorum,
    /// The DA committee's proposals, votes, certificates and
    /// transactions.
    Committee,
    /// The view-sync votes and certificates.
    ViewSync,
}

/// The error a network task surfaces when its channel fails.
#[derive(Clone, Copy, Debug, PartialEq, Eq, Structural)]
pub struct NetworkTaskError {}

/// A wire message with its sender.
pub struct Message {
    /// The sending replica's encoded key.
    pub sender: EncodedPublicKey,
    /// What the message carries.
    pub kind: ConsensusMessage,
}

/// The internal events the network task exchanges with the consensus
/// tasks.
pub enum SequencingHotShotEvent {
    /// Stop all tasks.
    Shutdown,
    /// The replica advanced to this view.
    ViewChange(u64),
    /// A quorum proposal arrived, with its signature and sender.
    QuorumProposalRecv(CommitmentProposal, EncodedSignature, EncodedPublicKey),
    /// A quorum vote arrived.
    QuorumVoteRecv(QuorumVote),
    /// A DA proposal arrived, with its signature and sender.
    DAProposalRecv(DAProposal, EncodedSignature, EncodedPublicKey),
    /// A DA vote arrived.
    DAVoteRecv(DAVote),
    /// A DA certificate arrived.
    DACRecv(DACertificate),
    /// A view-sync vote arrived.
    ViewSyncVoteRecv(ViewSyncVote),
    /// A view-sync certificate arrived, with its signature.
    ViewSyncCertificateRecv(ViewSyncCertificate, EncodedSignature),
    /// A transaction was submitted.
    TransactionRecv(Transaction),
    /// Broadcast a quorum proposal, signed, as this sender.
    QuorumProposalSend(CommitmentProposal, EncodedSignature, EncodedPublicKey),
    /// Send a quorum vote to the next view's leader.
    QuorumVoteSend(QuorumVote),
    /// Broadcast a DA proposal, signed, as this sender.
    DAProposalSend(DAProposal, EncodedSignature, EncodedPublicKey),
    /// Send a DA vote to this view's leader.
    DAVoteSend(DAVote),
    /// Broadcast a DA certificate as this sender.
    DACSend(DACertificate, EncodedPublicKey),
    /// Broadcast a view-sync certificate, signed, as this sender.
    ViewSyncCertificateSend(ViewSyncCertificate, EncodedSignature, EncodedPublicKey),
    /// Send a view-sync vote to its relay.
    ViewSyncVoteSend(ViewSyncVote),
    /// Broadcast a transaction as this sender.
    TransactionSend(Transaction, EncodedPublicKey),
}

/// What the network task does with one outbound event.
pub enum NetworkAction {
    /// Broadcast the message to the whole committee.
    Broadcast(Message),
    /// Send the message to one recipient.
    Direct(Message, PublicKey),
    /// Nothing to send for this event.
    Ignore,
    /// The task shuts down.
    Completed,
}

/// The event an incoming wire message classifies into.
pub open spec fn spec_classify_message(message: Message) -> SequencingHotShotEvent {
    match message.kind {
        ConsensusMessage::General(general) => match general {
            GeneralConsensusMessage::Proposal(p, s) => SequencingHotShotEvent::QuorumProposalRecv(
                p,
                s,
                message.sender,
            ),
            GeneralConsensusMessage::Vote(v) => SequencingHotShotEvent::QuorumVoteRecv(v),
            GeneralConsensusMessage::ViewSyncVote(v) => SequencingHotShotEvent::ViewSyncVoteRecv(
                v,
            ),
            GeneralConsensusMessage::ViewSyncCertificate(c, s) =>
                SequencingHotShotEvent::ViewSyncCertificateRecv(c, s),
        },
        ConsensusMessage::Committee(committee) => match committee {
            CommitteeConsensusMessage::DAProposal(p, s) => SequencingHotShotEvent::DAProposalRecv(
                p,
                s,
                message.sender,
            ),
            CommitteeConsensusMessage::DAVote(v) => SequencingHotShotEvent::DAVoteRecv(v),
            CommitteeConsensusMessage::DACertificate(c) => SequencingHotShotEvent::DACRecv(c),
        },
        ConsensusMessage::Data(data) => match data {
            crate::message::DataMessage::SubmitTransaction(t, _) =>
                SequencingHotShotEvent::TransactionRecv(t),
        },
    }
}

/// The per-role network task state: the view it believes current.  The
/// channel and the event stream are the host's.
pub struct NetworkTaskState {
    /// The view the task believes current.
    pub view: u64,
}

impl NetworkTaskState {
    /// Classify an incoming wire message into the event to publish.
    pub fn handle_message(&self, message: Message) -> (r: SequencingHotShotEvent)
        ensures
            r == spec_classify_message(message),
    {
        let sender = message.sender;
        match message.kind {
            ConsensusMessage::General(general) => match general {
                GeneralConsensusMessage::Proposal(p, s) =>
                    SequencingHotShotEvent::QuorumProposalRecv(p, s, sender),
                GeneralConsensusMessage::Vote(v) => SequencingHotShotEvent::QuorumVoteRecv(v),
                GeneralConsensusMessage::ViewSyncVote(v) =>
                    SequencingHotShotEvent::ViewSyncVoteRecv(v),
                GeneralConsensusMessage::ViewSyncCertificate(c, s) =>
                    SequencingHotShotEvent::ViewSyncCertificateRecv(c, s),
            },
            ConsensusMessage::Committee(committee) => match committee {
                CommitteeConsensusMessage::DAProposal(p, s) =>
                    SequencingHotShotEvent::DAProposalRecv(p, s, sender),
                CommitteeConsensusMessage::DAVote(v) => SequencingHotShotEvent::DAVoteRecv(v),
                CommitteeConsensusMessage::DACertificate(c) => SequencingHotShotEvent::DACRecv(c),
            },
            ConsensusMessage::Data(data) => match data {
                crate::message::DataMessage::SubmitTransaction(t, _) =>
                    SequencingHotShotEvent::TransactionRecv(t),
            },
        }
    }

    /// Turn one outbound event into the action the channel performs:
    /// proposals, certificates and transactions are broadcast; quorum
    /// votes go to the next view's leader, DA votes to this view's
    /// leader, view-sync votes to their relay.  A view change updates
    /// the task's view; shutdown completes the task; inbound events are
    /// ignored.
    pub fn handle_event(
        &mut self,
        event: SequencingHotShotEvent,
        membership: &StaticCommittee,
    ) -> (r: NetworkAction)
        requires
            membership.wf(),
        ensures
            match event {
                SequencingHotShotEvent::Shutdown => r matches NetworkAction::Completed && final(self).view == old(self).view,
                SequencingHotShotEvent::ViewChange(v) => r matches NetworkAction::Ignore && final(self).view == v,
                SequencingHotShotEvent::QuorumProposalSend(p, s, sender) => final(self).view
                    == old(self).view && (r matches NetworkAction::Broadcast(m) && m.sender
                    == sender && m.kind == ConsensusMessage::General(
                    GeneralConsensusMessage::Proposal(p, s),
                )),
                SequencingHotShotEvent::QuorumVoteSend(vote) => final(self).view == old(self).view
                    && (if spec_quorum_vote_view_number(vote@) < u64::MAX {
                    r matches NetworkAction::Direct(m, recipient) && m.sender@
                        == crate::message::spec_quorum_vote_key(vote@) && m.kind
                        == ConsensusMessage::General(GeneralConsensusMessage::Vote(vote))
                        && recipient.id == membership.spec_leader(
                        (spec_quorum_vote_view_number(vote@) + 1) as u64,
                    )
                } else {
                    r matches NetworkAction::Ignore
                }),
                SequencingHotShotEvent::DAProposalSend(p, s, sender) => final(self).view == old(self).view && (r matches NetworkAction::Broadcast(m) && m.sender == sender && m.kind
                    == ConsensusMessage::Committee(CommitteeConsensusMessage::DAProposal(p, s))),
                SequencingHotShotEvent::DAVoteSend(vote) => final(self).view == old(self).view && (
                r matches NetworkAction::Direct(m, recipient) && m.sender@ == vote@.key && m.kind
                    == ConsensusMessage::Committee(CommitteeConsensusMessage::DAVote(vote))
                    && recipient.id == membership.spec_leader(vote.current_view)),
                SequencingHotShotEvent::DACSend(cert, sender) => final(self).view == old(self).view
                    && (r matches NetworkAction::Broadcast(m) && m.sender == sender && m.kind
                    == ConsensusMessage::Committee(CommitteeConsensusMessage::DACertificate(cert))),
                SequencingHotShotEvent::ViewSyncCertificateSend(cert, s, sender) => final(self).view == old(self).view && (r matches NetworkAction::Broadcast(m) && m.sender
                    == sender && m.kind == ConsensusMessage::General(
                    GeneralConsensusMessage::ViewSyncCertificate(cert, s),
                )),
                SequencingHotShotEvent::ViewSyncVoteSend(vote) => final(self).view == old(self).view && (if spec_view_sync_vote_internal(vote@).round + spec_view_sync_vote_internal(
                    vote@,
                ).relay <= u64::MAX {
                    r matches NetworkAction::Direct(m, recipient) && m.sender@
                        == spec_view_sync_vote_internal(vote@).key && m.kind
                        == ConsensusMessage::General(GeneralConsensusMessage::ViewSyncVote(vote))
                        && recipient.id == membership.spec_leader(
                        (spec_view_sync_vote_internal(vote@).round + spec_view_sync_vote_internal(
                            vote@,
                        ).relay) as u64,
                    )
                } else {
                    r matches NetworkAction::Ignore
                }),
                SequencingHotShotEvent::TransactionSend(tx, sender) => final(self).view == old(self).view && (r matches NetworkAction::Broadcast(m) && m.sender == sender && m.kind
                    == ConsensusMessage::Data(
                    crate::message::DataMessage::SubmitTransaction(tx, old(self).view),
                )),
                _ => r matches NetworkAction::Ignore && final(self).view == old(self).view,
            },
    {
        match event {
            SequencingHotShotEvent::Shutdown => NetworkAction::Completed,
            SequencingHotShotEvent::ViewChange(v) => {
                self.view = v;
                NetworkAction::Ignore
            },
            SequencingHotShotEvent::QuorumProposalSend(p, s, sender) => NetworkAction::Broadcast(
                Message {
                    sender,
                    kind: ConsensusMessage::General(GeneralConsensusMessage::Proposal(p, s)),
                },
            ),
            SequencingHotShotEvent::QuorumVoteSend(vote) => {
                let view_number = vote.current_view();
                if view_number == u64::MAX {
                    return NetworkAction::Ignore;
                }
                let recipient = membership.get_leader(view_number + 1);
                let sender = vote.signature_key();
                NetworkAction::Direct(
                    Message {
                        sender,
                        kind: ConsensusMessage::General(GeneralConsensusMessage::Vote(vote)),
                    },
                    recipient,
                )
            },
            SequencingHotShotEvent::DAProposalSend(p, s, sender) => NetworkAction::Broadcast(
                Message {
                    sender,
                    kind: ConsensusMessage::Committee(
                        CommitteeConsensusMessage::DAProposal(p, s),
                    ),
                },
            ),
            SequencingHotShotEvent::DAVoteSend(vote) => {
                let recipient = membership.get_leader(vote.current_view);
                let sender = vote.signature.0.clone();
                NetworkAction::Direct(
                    Message {
                        sender,
                        kind: ConsensusMessage::Committee(CommitteeConsensusMessage::DAVote(vote)),
                    },
                    recipient,
                )
            },
            SequencingHotShotEvent::DACSend(cert, sender) => NetworkAction::Broadcast(
                Message {
                    sender,
                    kind: ConsensusMessage::Committee(
                        CommitteeConsensusMessage::DACertificate(cert),
                    ),
                },
            ),
            SequencingHotShotEvent::ViewSyncCertificateSend(cert, s, sender) =>
                NetworkAction::Broadcast(
                Message {
                    sender,
                    kind: ConsensusMessage::General(
                        GeneralConsensusMessage::ViewSyncCertificate(cert, s),
                    ),
                },
            ),
            SequencingHotShotEvent::ViewSyncVoteSend(vote) => {
                let round = vote.round();
                let relay = vote.relay();
                if relay > u64::MAX - round {
                    return NetworkAction::Ignore;
                }
                let recipient = membership.get_leader(round + relay);
                let sender = vote.signature_key();
                NetworkAction::Direct(
                    Message {
                        sender,
                        kind: ConsensusMessage::General(
                            GeneralConsensusMessage::ViewSyncVote(vote),
                        ),
                    },
                    recipient,
                )
            },
            SequencingHotShotEvent::TransactionSend(tx, sender) => NetworkAction::Broadcast(
                Message {
                    sender,
                    kind: ConsensusMessage::Data(
                        crate::message::DataMessage::SubmitTransaction(tx, self.view),
                    ),
                },
            ),
            _ => NetworkAction::Ignore,
        }
    }

    /// Whether the quorum task services this outbound event.
    pub fn quorum_filter(event: &SequencingHotShotEvent) -> (r: bool)
        ensures
            r == (event matches SequencingHotShotEvent::QuorumProposalSend(_, _, _) || event
                matches SequencingHotShotEvent::QuorumVoteSend(_) || event matches
                SequencingHotShotEvent::Shutdown || event matches
                SequencingHotShotEvent::ViewChange(_)),
    {
        match event {
            SequencingHotShotEvent::QuorumProposalSend(_, _, _) => true,
            SequencingHotShotEvent::QuorumVoteSend(_) => true,
            SequencingHotShotEvent::Shutdown => true,
            SequencingHotShotEvent::ViewChange(_) => true,
            _ => false,
        }
    }

    /// Whether the committee task services this outbound event.
    pub fn committee_filter(event: &SequencingHotShotEvent) -> (r: bool)
        ensures
            r == (event matches SequencingHotShotEvent::DAProposalSend(_, _, _) || event matches
                SequencingHotShotEvent::DAVoteSend(_) || event matches
                SequencingHotShotEvent::DACSend(_, _) || event matches
                SequencingHotShotEvent::Shutdown || event matches
                SequencingHotShotEvent::ViewChange(_) || event matches
                SequencingHotShotEvent::TransactionSend(_, _)),
    {
        match event {
            SequencingHotShotEvent::DAProposalSend(_, _, _) => true,
            SequencingHotShotEvent::DAVoteSend(_) => true,
            SequencingHotShotEvent::DACSend(_, _) => true,
            SequencingHotShotEvent::Shutdown => true,
            SequencingHotShotEvent::ViewChange(_) => true,
            SequencingHotShotEvent::TransactionSend(_, _) => true,
            _ => false,
        }
    }

    /// Whether the view-sync task services this outbound event.
    pub fn view_sync_filter(event: &SequencingHotShotEvent) -> (r: bool)
        ensures
            r == (event matches SequencingHotShotEvent::ViewSyncVoteSend(_) || event matches
                SequencingHotShotEvent::ViewSyncCertificateSend(_, _, _) || event matches
                SequencingHotShotEvent::Shutdown || event matches
                SequencingHotShotEvent::ViewChange(_)),
    {
        match event {
            SequencingHotShotEvent::ViewSyncVoteSend(_) => true,
            SequencingHotShotEvent::ViewSyncCertificateSend(_, _, _) => true,
            SequencingHotShotEvent::Shutdown => true,
            SequencingHotShotEvent::ViewChange(_) => true,
            _ => false,
        }
    }

    /// The filter of the given task kind, applied to one event.  Every
    /// filter passes `Shutdown` and `ViewChange`.
    pub fn filter(task_kind: NetworkTaskKind, event: &SequencingHotShotEvent) -> (r: bool)
        ensures
            (event matches SequencingHotShotEvent::Shutdown || event matches
                SequencingHotShotEvent::ViewChange(_)) ==> r,
            match task_kind {
                NetworkTaskKind::Quorum => r == (event matches
                    SequencingHotShotEvent::QuorumProposalSend(_, _, _) || event matches
                    SequencingHotShotEvent::QuorumVoteSend(_) || event matches
                    SequencingHotShotEvent::Shutdown || event matches
                    SequencingHotShotEvent::ViewChange(_)),
                NetworkTaskKind::Committee => r == (event matches
                    SequencingHotShotEvent::DAProposalSend(_, _, _) || event matches
                    SequencingHotShotEvent::DAVoteSend(_) || event matches
                    SequencingHotShotEvent::DACSend(_, _) || event matches
                    SequencingHotShotEvent::Shutdown || event matches
                    SequencingHotShotEvent::ViewChange(_) || event matches
                    SequencingHotShotEvent::TransactionSend(_, _)),
                NetworkTaskKind::ViewSync => r == (event matches
                    SequencingHotShotEvent::ViewSyncVoteSend(_) || event matches
                    SequencingHotShotEvent::ViewSyncCertificateSend(_, _, _) || event matches
                    SequencingHotShotEvent::Shutdown || event matches
                    SequencingHotShotEvent::ViewChange(_)),
            },
    {
        match task_kind {
            NetworkTaskKind::Quorum => Self::quorum_filter(event),
            NetworkTaskKind::Committee => Self::committee_filter(event),
            NetworkTaskKind::ViewSync => Self::view_sync_filter(event),
        }
    }
}

} // verus!
