//! Handles: what control code holds to change a track.

use crate::audio_stream::AudioStreamId;
use crate::command::{Command, CommandSender, MixerCommand, StreamCommand};
use crate::error::{AudioError, AudioResult};
use crate::ident::IdAllocator;
use crate::mixer::effect::{Effect, EffectId, EffectSettings};
use crate::mixer::track::id::{TrackId, TrackLabel};
use vstd::prelude::*;

verus! {

/// Control over one track from outside the renderer. What a handle asks for
/// travels to the renderer as a command and takes effect on the tick that
/// receives it.
#[verifier::reject_recursive_types(E)]
pub struct TrackHandle<'a, E: Effect> {
    id: TrackId,
    command_sender: CommandSender<'a, E>,
}

impl<'a, E: Effect> TrackHandle<'a, E> {
    /// The track that the handle stands for.
    pub closed spec fn track(&self) -> TrackId {
        self.id
    }

    /// The commands that the handle's sender has sent, in order.
    pub closed spec fn sent(&self) -> Seq<Command<'a, E>> {
        self.command_sender.sent()
    }

    /// A handle for the track `id` that sends through `command_sender`.
    pub fn new(id: TrackId, command_sender: CommandSender<'a, E>) -> (handle: Self)
        ensures
            handle.track() == id,
            handle.sent() == command_sender.sent(),
    {
        TrackHandle { id, command_sender }
    }

    /// The track that the handle stands for.
    pub fn id(&self) -> (id: TrackId)
        ensures
            id == self.track(),
    {
        self.id
    }

    /// Asks the renderer to put `effect` at the end of the track's chain.
    /// The effect gets the next identifier of `allocator` whether or not the
    /// command could be sent. `Ok` holds that identifier, and the command to
    /// add the effect under it to this track is the last that was sent; an
    /// error says why the command was not sent.
    pub fn add_effect(&mut self, effect: E, settings: EffectSettings, allocator: &mut IdAllocator) -> (result:
        AudioResult<EffectId>)
        requires
            old(allocator).issued() < usize::MAX,
        ensures
            final(self).track() == old(self).track(),
            final(allocator).issued() == old(allocator).issued() + 1,
            match result {
                Ok(id) => {
                    &&& id.key() == old(allocator).issued()
                    &&& id.track() == old(self).track()
                    &&& final(self).sent() == old(self).sent().push(
                        Command::Mixer(
                            MixerCommand::AddEffect(TrackLabel::Id(old(self).track()), id, effect, settings),
                        ),
                    )
                },
                Err(error) => {
                    &&& final(self).sent() == old(self).sent()
                    &&& error == AudioError::ChannelFull || error == AudioError::ChannelDisconnected
                },
            },
    {
        let effect_id = EffectId::new(self.id, allocator).unwrap();
        let label = TrackLabel::Id(self.id);
        let command = Command::Mixer(MixerCommand::AddEffect(label, effect_id, effect, settings));
        match self.command_sender.push(command) {
            Ok(()) => Ok(effect_id),
            Err(error) => Err(error),
        }
    }

    /// Asks the renderer to take the effect `id` out of its track's chain.
    /// On `Ok` the command to remove that effect is the last that was sent;
    /// an error says why the command was not sent.
    pub fn remove_effect(&mut self, id: EffectId) -> (result: AudioResult<()>)
        ensures
            final(self).track() == old(self).track(),
            match result {
                Ok(()) => final(self).sent() == old(self).sent().push(
                    Command::Mixer(MixerCommand::RemoveEffect(id)),
                ),
                Err(error) => {
                    &&& final(self).sent() == old(self).sent()
                    &&& error == AudioError::ChannelFull || error == AudioError::ChannelDisconnected
                },
            },
    {
        self.command_sender.push(Command::Mixer(MixerCommand::RemoveEffect(id)))
    }

    /// Asks the renderer to attach `stream` to the track. The stream gets
    /// the next identifier of `allocator` whether or not the command could be
    /// sent. `Ok` holds that identifier, and the command to attach the stream
    /// under it to this track is the last that was sent; an error says why
    /// the command was not sent.
    pub fn add_stream(&mut self, stream: E, allocator: &mut IdAllocator) -> (result: AudioResult<
        AudioStreamId,
    >)
        requires
            old(allocator).issued() < usize::MAX,
        ensures
            final(self).track() == old(self).track(),
            final(allocator).issued() == old(allocator).issued() + 1,
            match result {
                Ok(id) => {
                    &&& id@ == old(allocator).issued()
                    &&& final(self).sent() == old(self).sent().push(
                        Command::Stream(StreamCommand::AddStream(id, old(self).track(), stream)),
                    )
                },
                Err(error) => {
                    &&& final(self).sent() == old(self).sent()
                    &&& error == AudioError::ChannelFull || error == AudioError::ChannelDisconnected
                },
            },
    {
        let stream_id = AudioStreamId::new(allocator).unwrap();
        let command = Command::Stream(StreamCommand::AddStream(stream_id, self.id, stream));
        match self.command_sender.push(command) {
            Ok(()) => Ok(stream_id),
            Err(error) => Err(error),
        }
    }

    /// Asks the renderer to detach the stream `id`. On `Ok` the command to
    /// detach that stream is the last that was sent; an error says why the
    /// command was not sent.
    pub fn remove_stream(&mut self, id: AudioStreamId) -> (result: AudioResult<()>)
        ensures
            final(self).track() == old(self).track(),
            match result {
                Ok(()) => final(self).sent() == old(self).sent().push(
                    Command::Stream(StreamCommand::RemoveStream(id)),
                ),
                Err(error) => {
                    &&& final(self).sent() == old(self).sent()
                    &&& error == AudioError::ChannelFull || error == AudioError::ChannelDisconnected
                },
            },
    {
        self.command_sender.push(Command::Stream(StreamCommand::RemoveStream(id)))
    }
}

impl<'a, 'b, E: Effect> From<&'b TrackHandle<'a, E>> for TrackId {
    /// The track that a handle stands for.
    fn from(handle: &'b TrackHandle<'a, E>) -> (id: Self) {
        handle.id()
    }
}

impl<'a, 'b, E: Effect> vstd::std_specs::convert::FromSpecImpl<&'b TrackHandle<'a, E>> for TrackId {
    open spec fn obeys_from_spec() -> bool {
        true
    }

    open spec fn from_spec(handle: &'b TrackHandle<'a, E>) -> Self {
        handle.track()
    }
}

impl<'a, 'b, E: Effect> From<&'b TrackHandle<'a, E>> for TrackLabel {
    /// The label of the track that a handle stands for.
    fn from(handle: &'b TrackHandle<'a, E>) -> (label: Self) {
        TrackLabel::Id(handle.id())
    }
}

impl<'a, 'b, E: Effect> vstd::std_specs::convert::FromSpecImpl<&'b TrackHandle<'a, E>> for TrackLabel {
    open spec fn obeys_from_spec() -> bool {
        true
    }

    open spec fn from_spec(handle: &'b TrackHandle<'a, E>) -> Self {
        TrackLabel::Id(handle.track())
    }
}

} // verus!
