//! The requests that control code sends to the renderer.

use crate::audio_stream::AudioStreamId;
use crate::channel::{channel_bounded, channel_try_send, Rejected};
use crate::error::{AudioError, AudioResult};
use crate::group::id::GroupId;
use crate::group::Group;
use crate::instance::{Instance, InstanceId};
use crate::mixer::effect::{Effect, EffectId, EffectSettings};
use crate::mixer::track::id::{SubTrackId, TrackId, TrackLabel};
use crate::mixer::track::Track;
use flume::{Receiver, Sender};
use vstd::prelude::*;

verus! {

/// A change to the mixer.
pub enum MixerCommand<E: Effect> {
    /// Puts a sub-track under the identifier, in place of any that was there.
    AddSubTrack(SubTrackId, Track<E>),
    /// Puts an effect into the chain of the track that the label stands for.
    AddEffect(TrackLabel, EffectId, E, EffectSettings),
    /// Takes the sub-track with the identifier out.
    RemoveSubTrack(SubTrackId),
    /// Takes the effect out of the chain of the track that it was made for.
    RemoveEffect(EffectId),
}

/// A change to the group registry.
pub enum GroupCommand {
    /// Registers `group` under the identifier, in place of any group that was
    /// registered under it before.
    AddGroup(GroupId, Group),
    /// Takes the group with the identifier out of the registry.
    RemoveGroup(GroupId),
}

impl GroupCommand {
    /// The identifier that the command is about.
    pub open spec fn target(self) -> GroupId {
        match self {
            GroupCommand::AddGroup(id, _) => id,
            GroupCommand::RemoveGroup(id) => id,
        }
    }
}

/// A change to the streams.
pub enum StreamCommand<E: Effect> {
    /// Attaches a stream to a track under the identifier, in place of any
    /// stream that was there.
    AddStream(AudioStreamId, TrackId, E),
    /// Detaches the stream with the identifier.
    RemoveStream(AudioStreamId),
}

/// A request to the renderer.
pub enum Command<'a, E: Effect> {
    /// Starts an instance under the identifier.
    StartInstance(InstanceId, Instance<'a, E::Frame>),
    /// Changes the mixer.
    Mixer(MixerCommand<E>),
    /// Changes the group registry.
    Group(GroupCommand),
    /// Changes the streams.
    Stream(StreamCommand<E>),
}

/// How many commands the command channel holds.
pub const COMMAND_CAPACITY: usize = 10;

/// What the sender of a value is told about a send.
pub fn send_result<T>(outcome: Result<(), Rejected<T>>) -> (result: AudioResult<()>)
    ensures
        result == match outcome {
            Ok(()) => Ok::<(), AudioError>(()),
            Err(Rejected::Full(_)) => Err(AudioError::ChannelFull),
            Err(Rejected::Disconnected(_)) => Err(AudioError::ChannelDisconnected),
        },
{
    match outcome {
        Ok(()) => Ok(()),
        Err(Rejected::Full(_)) => Err(AudioError::ChannelFull),
        Err(Rejected::Disconnected(_)) => Err(AudioError::ChannelDisconnected),
    }
}

/// The control side's end of the command channel, with a record of the
/// commands that it has sent.
#[verifier::reject_recursive_types(E)]
pub struct CommandSender<'a, E: Effect> {
    sender: Sender<Command<'a, E>>,
    sent: Ghost<Seq<Command<'a, E>>>,
}

impl<'a, E: Effect> CommandSender<'a, E> {
    /// The channel that the sender sends into.
    pub closed spec fn channel(&self) -> Sender<Command<'a, E>> {
        self.sender
    }

    /// The commands that this sender handed to the channel and that the
    /// channel took, in the order in which it took them.
    pub closed spec fn sent(&self) -> Seq<Command<'a, E>> {
        self.sent@
    }

    /// A sender that sends into `sender` and has sent nothing yet.
    pub fn new(sender: Sender<Command<'a, E>>) -> (made: Self)
        ensures
            made.channel() == sender,
            made.sent() == Seq::<Command<'a, E>>::empty(),
    {
        CommandSender { sender, sent: Ghost(Seq::empty()) }
    }

    /// Hands `command` to the channel without waiting. Whether the channel
    /// takes it is not in the sender's hands. `Ok` comes back if and only if
    /// the channel took the command, which is then the last on the sender's
    /// record; otherwise the command is dropped, the record stays, and the
    /// error is `ChannelFull` or `ChannelDisconnected`.
    pub fn push(&mut self, command: Command<'a, E>) -> (result: AudioResult<()>)
        ensures
            final(self).channel() == old(self).channel(),
            match result {
                Ok(()) => final(self).sent() == old(self).sent().push(command),
                Err(error) => {
                    &&& final(self).sent() == old(self).sent()
                    &&& error == AudioError::ChannelFull || error == AudioError::ChannelDisconnected
                },
            },
    {
        let ghost handed = command;
        let outcome = channel_try_send(&self.sender, command);
        proof {
            if outcome.is_ok() {
                self.sent@ = self.sent@.push(handed);
            }
        }
        send_result(outcome)
    }
}

/// The two ends of a new command channel, which is made to hold
/// `COMMAND_CAPACITY` commands. The sender has sent nothing yet.
pub fn command_channel<'a, E: Effect>() -> (ends: (CommandSender<'a, E>, Receiver<Command<'a, E>>))
    ensures
        ends.0.sent() == Seq::<Command<'a, E>>::empty(),
{
    let (sender, receiver) = channel_bounded(COMMAND_CAPACITY);
    (CommandSender::new(sender), receiver)
}

} // verus!
