//! Track identifiers and the labels by which callers refer to tracks.

use crate::error::{AudioError, AudioResult};
use crate::ident::IdAllocator;
use crate::mixer::track::sealed::Sealed;
use crate::names::NameMap;
use vstd::prelude::*;

verus! {

/// A unique identifier for a sub-track.
#[derive(Debug, Copy, Clone, Eq, PartialEq, Hash, Structural)]
pub struct SubTrackId {
    index: usize,
}

impl View for SubTrackId {
    type V = usize;

    closed spec fn view(&self) -> usize {
        self.index
    }
}

impl SubTrackId {
    /// A fresh identifier, or `None` once the allocator has none left.
    pub fn new(allocator: &mut IdAllocator) -> (id: Option<Self>)
        ensures
            match id {
                Some(id) => id@ == old(allocator).issued() && final(allocator).issued() == old(
                    allocator,
                ).issued() + 1,
                None => old(allocator).issued() == usize::MAX && final(allocator).issued() == old(
                    allocator,
                ).issued(),
            },
    {
        match allocator.next() {
            Some(index) => Some(SubTrackId { index }),
            None => None,
        }
    }

    /// The identifier that stands at `index` in the mixer's tables.
    pub(crate) fn from_index(index: usize) -> (id: Self)
        ensures
            id@ == index,
    {
        SubTrackId { index }
    }

    /// The index by which the mixer's tables know this track.
    pub fn index(&self) -> (index: usize)
        ensures
            index == self@,
    {
        self.index
    }
}

/// Where a track identifier points: at the main track, or at the sub-track
/// with an index.
pub enum Route {
    /// The main track.
    Main,
    /// The sub-track with this index.
    Sub(usize),
}

/// The route that a reference stands for under `names`, if any: a route
/// stands for itself, a name for the sub-track that it is paired with.
pub open spec fn resolved_route(label: Result<Route, Seq<char>>, names: Map<Seq<char>, usize>) -> Option<Route> {
    match label {
        Ok(route) => Some(route),
        Err(name) => if names.dom().contains(name) {
            Some(Route::Sub(names[name]))
        } else {
            None
        },
    }
}

/// A reference to a track that can be resolved to an identifier.
pub trait TrackIdTrait: Sealed + Sized {
    /// What the reference holds: `Ok` of a route, or `Err` of a name's
    /// characters.
    spec fn label(self) -> Result<Route, Seq<char>>;

    /// Resolves the reference: an identifier stands for itself, a name for
    /// the sub-track that `sub_track_names` pairs it with. A name that is not
    /// paired comes back in `NoTrackWithName`.
    fn to_track_id(self, sub_track_names: &NameMap) -> (resolved: AudioResult<TrackId>)
        ensures
            match resolved {
                Ok(id) => resolved_route(self.label(), sub_track_names@) == Some(id@),
                Err(AudioError::NoTrackWithName(name)) => {
                    &&& self.label() == Err::<Route, Seq<char>>(name@)
                    &&& resolved_route(self.label(), sub_track_names@).is_none()
                },
                Err(_) => false,
            },
    ;
}

/// Represents a mixer track.
#[derive(Debug, Copy, Clone, Eq, PartialEq, Hash, Structural)]
pub enum TrackId {
    /// The main track. All sub-tracks are sent to the main track as input,
    /// and the output of the main track is what is heard.
    Main,
    /// A sub-track.
    Sub(SubTrackId),
}

impl View for TrackId {
    type V = Route;

    open spec fn view(&self) -> Route {
        match self {
            TrackId::Main => Route::Main,
            TrackId::Sub(id) => Route::Sub(id@),
        }
    }
}

impl Default for TrackId {
    fn default() -> (id: Self)
        ensures
            id == TrackId::Main,
    {
        TrackId::Main
    }
}

impl From<SubTrackId> for TrackId {
    /// The identifier of a sub-track as a track identifier.
    fn from(id: SubTrackId) -> (track: Self) {
        TrackId::Sub(id)
    }
}

impl vstd::std_specs::convert::FromSpecImpl<SubTrackId> for TrackId {
    open spec fn obeys_from_spec() -> bool {
        true
    }

    open spec fn from_spec(id: SubTrackId) -> Self {
        TrackId::Sub(id)
    }
}

impl Sealed for TrackId {

}

impl TrackIdTrait for TrackId {
    open spec fn label(self) -> Result<Route, Seq<char>> {
        Ok(self@)
    }

    /// An identifier resolves to itself, whatever the names are.
    fn to_track_id(self, sub_track_names: &NameMap) -> (resolved: AudioResult<TrackId>)
        ensures
            resolved matches Ok(id) && id == self,
    {
        Ok(self)
    }
}

/// A reference to a track, by identifier or by the name of a sub-track.
#[derive(Debug, Clone, PartialEq, Eq, Hash)]
pub enum TrackLabel {
    /// The track with this identifier.
    Id(TrackId),
    /// The sub-track that goes by this name.
    Name(String),
}

impl View for TrackLabel {
    type V = Result<Route, Seq<char>>;

    /// `Ok` of the route for an identifier, `Err` of the characters for a
    /// name.
    open spec fn view(&self) -> Result<Route, Seq<char>> {
        match self {
            TrackLabel::Id(id) => Ok(id@),
            TrackLabel::Name(name) => Err(name@),
        }
    }
}

impl Default for TrackLabel {
    fn default() -> (label: Self)
        ensures
            label == TrackLabel::Id(TrackId::Main),
    {
        TrackLabel::Id(TrackId::Main)
    }
}

impl From<TrackId> for TrackLabel {
    /// The label of a track identifier.
    fn from(id: TrackId) -> (label: Self) {
        TrackLabel::Id(id)
    }
}

impl vstd::std_specs::convert::FromSpecImpl<TrackId> for TrackLabel {
    open spec fn obeys_from_spec() -> bool {
        true
    }

    open spec fn from_spec(id: TrackId) -> Self {
        TrackLabel::Id(id)
    }
}

impl From<SubTrackId> for TrackLabel {
    /// The label of a sub-track identifier.
    fn from(id: SubTrackId) -> (label: Self) {
        TrackLabel::Id(TrackId::Sub(id))
    }
}

impl vstd::std_specs::convert::FromSpecImpl<SubTrackId> for TrackLabel {
    open spec fn obeys_from_spec() -> bool {
        true
    }

    open spec fn from_spec(id: SubTrackId) -> Self {
        TrackLabel::Id(TrackId::Sub(id))
    }
}

impl From<String> for TrackLabel {
    /// The label of a name.
    fn from(name: String) -> (label: Self) {
        TrackLabel::Name(name)
    }
}

impl vstd::std_specs::convert::FromSpecImpl<String> for TrackLabel {
    open spec fn obeys_from_spec() -> bool {
        true
    }

    open spec fn from_spec(name: String) -> Self {
        TrackLabel::Name(name)
    }
}

impl Sealed for TrackLabel {

}

impl TrackIdTrait for TrackLabel {
    open spec fn label(self) -> Result<Route, Seq<char>> {
        self@
    }

    fn to_track_id(self, sub_track_names: &NameMap) -> (resolved: AudioResult<TrackId>) {
        match self {
            TrackLabel::Id(id) => Ok(id),
            TrackLabel::Name(name) => match sub_track_names.get(&name) {
                Some(index) => Ok(TrackId::Sub(SubTrackId::from_index(index))),
                None => Err(AudioError::NoTrackWithName(name)),
            },
        }
    }
}

} // verus!
