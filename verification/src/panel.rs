//! The ring of panels, the interaction mode and the body encoding mode.

use vstd::prelude::*;

verus! {

/// Whether keystrokes are commands or text for the focused field.
#[derive(Debug, Copy, Clone, PartialEq, Eq, Structural)]
pub enum Mode {
    Normal,
    Edit,
}

/// How the body pairs are serialized when a request is sent.
#[derive(Debug, Copy, Clone, PartialEq, Eq, Structural)]
pub enum BodyMode {
    Json,
    Form,
}

/// The panel that has the focus. The panels form a ring, in the order in
/// which they are declared.
#[derive(Debug, Copy, Clone, PartialEq, Eq, Structural)]
pub enum ActivePanel {
    Url,
    ReqQuery,
    ReqHeaders,
    ReqBody,
    ResHeaders,
    ResBody,
}

impl Default for Mode {
    fn default() -> (r: Mode)
        ensures
            r == Mode::Normal,
    {
        Mode::Normal
    }
}

impl Default for BodyMode {
    fn default() -> (r: BodyMode)
        ensures
            r == BodyMode::Json,
    {
        BodyMode::Json
    }
}

impl Default for ActivePanel {
    fn default() -> (r: ActivePanel)
        ensures
            r == ActivePanel::Url,
    {
        ActivePanel::Url
    }
}

impl Mode {
    /// The name of the mode as the status bar shows it.
    pub open spec fn spec_label(self) -> Seq<char> {
        match self {
            Mode::Normal => "NORMAL"@,
            Mode::Edit => "EDIT"@,
        }
    }

    /// The name of the mode as the status bar shows it.
    pub fn label(self) -> (r: &'static str)
        ensures
            r@ == self.spec_label(),
    {
        match self {
            Mode::Normal => "NORMAL",
            Mode::Edit => "EDIT",
        }
    }
}

impl BodyMode {
    /// The other body mode.
    pub open spec fn spec_toggled(self) -> BodyMode {
        match self {
            BodyMode::Json => BodyMode::Form,
            BodyMode::Form => BodyMode::Json,
        }
    }

    /// The other body mode.
    #[verifier::when_used_as_spec(spec_toggled)]
    pub fn toggled(self) -> (r: BodyMode)
        ensures
            r == self.spec_toggled(),
    {
        match self {
            BodyMode::Json => BodyMode::Form,
            BodyMode::Form => BodyMode::Json,
        }
    }

    /// The content type that goes with the body mode.
    pub open spec fn spec_content_type(self) -> Seq<char> {
        match self {
            BodyMode::Json => "application/json"@,
            BodyMode::Form => "application/x-www-form-urlencoded"@,
        }
    }

    /// The content type that goes with the body mode.
    pub fn content_type(self) -> (r: &'static str)
        ensures
            r@ == self.spec_content_type(),
    {
        match self {
            BodyMode::Json => "application/json",
            BodyMode::Form => "application/x-www-form-urlencoded",
        }
    }
}

impl ActivePanel {
    /// The panel that follows on the ring.
    pub open spec fn spec_next(self) -> ActivePanel {
        match self {
            ActivePanel::Url => ActivePanel::ReqQuery,
            ActivePanel::ReqQuery => ActivePanel::ReqHeaders,
            ActivePanel::ReqHeaders => ActivePanel::ReqBody,
            ActivePanel::ReqBody => ActivePanel::ResHeaders,
            ActivePanel::ResHeaders => ActivePanel::ResBody,
            ActivePanel::ResBody => ActivePanel::Url,
        }
    }

    /// The panel that comes before on the ring.
    pub open spec fn spec_prev(self) -> ActivePanel {
        match self {
            ActivePanel::Url => ActivePanel::ResBody,
            ActivePanel::ReqQuery => ActivePanel::Url,
            ActivePanel::ReqHeaders => ActivePanel::ReqQuery,
            ActivePanel::ReqBody => ActivePanel::ReqHeaders,
            ActivePanel::ResHeaders => ActivePanel::ReqBody,
            ActivePanel::ResBody => ActivePanel::ResHeaders,
        }
    }

    /// The panel reached by `k` steps forward.
    pub open spec fn next_times(self, k: nat) -> ActivePanel
        decreases k,
    {
        if k == 0 {
            self
        } else {
            self.spec_next().next_times((k - 1) as nat)
        }
    }

    /// Whether the panel holds a field that the user can edit.
    pub open spec fn spec_is_editable(self) -> bool {
        self != ActivePanel::ResHeaders && self != ActivePanel::ResBody
    }

    /// The panel that follows on the ring.
    #[verifier::when_used_as_spec(spec_next)]
    pub fn next(self) -> (r: ActivePanel)
        ensures
            r == self.spec_next(),
    {
        match self {
            ActivePanel::Url => ActivePanel::ReqQuery,
            ActivePanel::ReqQuery => ActivePanel::ReqHeaders,
            ActivePanel::ReqHeaders => ActivePanel::ReqBody,
            ActivePanel::ReqBody => ActivePanel::ResHeaders,
            ActivePanel::ResHeaders => ActivePanel::ResBody,
            ActivePanel::ResBody => ActivePanel::Url,
        }
    }

    /// The panel that comes before on the ring.
    #[verifier::when_used_as_spec(spec_prev)]
    pub fn prev(self) -> (r: ActivePanel)
        ensures
            r == self.spec_prev(),
    {
        match self {
            ActivePanel::Url => ActivePanel::ResBody,
            ActivePanel::ReqQuery => ActivePanel::Url,
            ActivePanel::ReqHeaders => ActivePanel::ReqQuery,
            ActivePanel::ReqBody => ActivePanel::ReqHeaders,
            ActivePanel::ResHeaders => ActivePanel::ReqBody,
            ActivePanel::ResBody => ActivePanel::ResHeaders,
        }
    }

    /// Whether the panel holds a field that the user can edit: the request
    /// panels do, the response panels do not.
    #[verifier::when_used_as_spec(spec_is_editable)]
    pub fn is_editable(self) -> (r: bool)
        ensures
            r == self.spec_is_editable(),
    {
        match self {
            ActivePanel::ResHeaders | ActivePanel::ResBody => false,
            _ => true,
        }
    }

    /// Six steps forward, one for each panel, lead back to the start.
    pub proof fn lemma_ring_closes(self)
        ensures
            self.next_times(6) == self,
    {
        reveal_with_fuel(ActivePanel::next_times, 7);
    }

    /// A step back undoes a step forward, and a step forward a step back.
    pub proof fn lemma_prev_undoes_next(self)
        ensures
            self.next().prev() == self,
            self.prev().next() == self,
    {
    }

    /// Every panel is reached from every panel in fewer than six steps.
    pub proof fn lemma_all_reachable(self, target: ActivePanel)
        ensures
            exists|k: nat| k < 6 && self.next_times(k) == target,
    {
        reveal_with_fuel(ActivePanel::next_times, 7);
        assert(self.next_times(0) == target || self.next_times(1) == target || self.next_times(2)
            == target || self.next_times(3) == target || self.next_times(4) == target
            || self.next_times(5) == target);
    }
}

} // verus!
