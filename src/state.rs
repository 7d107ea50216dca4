use vstd::prelude::*;
use vstd::string::*;

verus! {

/// What the engine is doing, as observers see it.
#[derive(Debug, Clone)]
pub enum PlaybackState {
    Idle,
    Loading,
    Buffering,
    Playing,
    Paused,
    Stopped,
    Error(String),
}

/// The mathematical value of a `PlaybackState`: the diagnostic becomes its characters.
pub enum StateView {
    Idle,
    Loading,
    Buffering,
    Playing,
    Paused,
    Stopped,
    Error(Seq<char>),
}

impl View for PlaybackState {
    type V = StateView;

    open spec fn view(&self) -> StateView {
        match self {
            PlaybackState::Idle => StateView::Idle,
            PlaybackState::Loading => StateView::Loading,
            PlaybackState::Buffering => StateView::Buffering,
            PlaybackState::Playing => StateView::Playing,
            PlaybackState::Paused => StateView::Paused,
            PlaybackState::Stopped => StateView::Stopped,
            PlaybackState::Error(m) => StateView::Error(m@),
        }
    }
}

impl StateView {
    /// An `Error` always carries a non-empty diagnostic.
    pub open spec fn wf(self) -> bool {
        self matches StateView::Error(m) ==> m.len() > 0
    }

    /// The text published for this state.
    pub open spec fn text(self) -> Seq<char> {
        match self {
            StateView::Idle => "idle"@,
            StateView::Loading => "loading"@,
            StateView::Buffering => "buffering"@,
            StateView::Playing => "playing"@,
            StateView::Paused => "paused"@,
            StateView::Stopped => "stopped"@,
            StateView::Error(m) => "error: "@ + m,
        }
    }
}

impl PartialEq for PlaybackState {
    fn eq(&self, other: &PlaybackState) -> (r: bool) {
        match (self, other) {
            (PlaybackState::Idle, PlaybackState::Idle) => true,
            (PlaybackState::Loading, PlaybackState::Loading) => true,
            (PlaybackState::Buffering, PlaybackState::Buffering) => true,
            (PlaybackState::Playing, PlaybackState::Playing) => true,
            (PlaybackState::Paused, PlaybackState::Paused) => true,
            (PlaybackState::Stopped, PlaybackState::Stopped) => true,
            (PlaybackState::Error(a), PlaybackState::Error(b)) => a.eq(b),
            _ => false,
        }
    }
}

impl vstd::std_specs::cmp::PartialEqSpecImpl for PlaybackState {
    open spec fn obeys_eq_spec() -> bool {
        true
    }

    open spec fn eq_spec(&self, other: &PlaybackState) -> bool {
        self@ == other@
    }
}

impl PlaybackState {
    /// The text published for this state: `idle`, `playing`, ... or `error: <message>`.
    pub fn to_text(&self) -> (r: String)
        ensures
            r@ == self@.text(),
    {
        proof {
            reveal_strlit("idle");
            reveal_strlit("loading");
            reveal_strlit("buffering");
            reveal_strlit("playing");
            reveal_strlit("paused");
            reveal_strlit("stopped");
            reveal_strlit("error: ");
        }
        match self {
            PlaybackState::Idle => String::from_str("idle"),
            PlaybackState::Loading => String::from_str("loading"),
            PlaybackState::Buffering => String::from_str("buffering"),
            PlaybackState::Playing => String::from_str("playing"),
            PlaybackState::Paused => String::from_str("paused"),
            PlaybackState::Stopped => String::from_str("stopped"),
            PlaybackState::Error(m) => String::from_str("error: ").concat(m.as_str()),
        }
    }

    /// A copy with the same value.
    pub fn copied(&self) -> (r: PlaybackState)
        ensures
            r@ == self@,
    {
        match self {
            PlaybackState::Idle => PlaybackState::Idle,
            PlaybackState::Loading => PlaybackState::Loading,
            PlaybackState::Buffering => PlaybackState::Buffering,
            PlaybackState::Playing => PlaybackState::Playing,
            PlaybackState::Paused => PlaybackState::Paused,
            PlaybackState::Stopped => PlaybackState::Stopped,
            PlaybackState::Error(m) => PlaybackState::Error(m.clone()),
        }
    }

    pub fn is_playing(&self) -> (r: bool)
        ensures
            r == (self@ is Playing),
    {
        matches!(self, PlaybackState::Playing)
    }
}

} // verus!
