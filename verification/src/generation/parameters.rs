use vstd::prelude::*;

verus! {

/// How long the model stays loaded in memory after a request.
#[derive(Debug)]
pub enum KeepAlive {
    /// The model stays loaded indefinitely.
    Forever,
    /// The model is unloaded once the request is complete.
    UntilCompletion,
    /// A duration with its unit: "10s", "5m", "1h".
    Custom(String),
}

/// How much reasoning the model is to apply before it answers.
#[derive(Debug, Clone, Copy, PartialEq, Eq, Structural)]
pub enum Think {
    Enabled,
    Disabled,
    High,
    Medium,
    Low,
}

/// A setting as it is written into a request.
#[derive(Debug)]
pub enum WireValue {
    Integer(i8),
    Flag(bool),
    Text(String),
}

/// Mathematical value of a [`WireValue`].
pub enum WireValueView {
    Integer(int),
    Flag(bool),
    Text(Seq<char>),
}

impl View for WireValue {
    type V = WireValueView;

    open spec fn view(&self) -> WireValueView {
        match self {
            WireValue::Integer(n) => WireValueView::Integer(*n as int),
            WireValue::Flag(b) => WireValueView::Flag(*b),
            WireValue::Text(t) => WireValueView::Text(t@),
        }
    }
}

impl Clone for KeepAlive {
    fn clone(&self) -> (r: Self)
        ensures
            r.wire_view() == self.wire_view(),
    {
        match self {
            KeepAlive::Forever => KeepAlive::Forever,
            KeepAlive::UntilCompletion => KeepAlive::UntilCompletion,
            KeepAlive::Custom(duration) => KeepAlive::Custom(duration.clone()),
        }
    }
}

impl KeepAlive {
    /// How this setting is written into a request: -1 for ever, 0 until the
    /// request is complete, a custom duration as it stands.
    pub open spec fn wire_view(self) -> WireValueView {
        match self {
            KeepAlive::Forever => WireValueView::Integer(-1),
            KeepAlive::UntilCompletion => WireValueView::Integer(0),
            KeepAlive::Custom(duration) => WireValueView::Text(duration@),
        }
    }

    /// How this setting is written into a request.
    pub fn wire(&self) -> (r: WireValue)
        ensures
            r@ == self.wire_view(),
    {
        match self {
            KeepAlive::Forever => WireValue::Integer(-1),
            KeepAlive::UntilCompletion => WireValue::Integer(0),
            KeepAlive::Custom(duration) => WireValue::Text(duration.clone()),
        }
    }
}

impl Think {
    /// How this setting is written into a request: a flag for on and off, the
    /// level's name for a level.
    pub open spec fn wire_view(self) -> WireValueView {
        match self {
            Think::Enabled => WireValueView::Flag(true),
            Think::Disabled => WireValueView::Flag(false),
            Think::High => WireValueView::Text("high"@),
            Think::Medium => WireValueView::Text("medium"@),
            Think::Low => WireValueView::Text("low"@),
        }
    }

    /// How this setting is written into a request.
    pub fn wire(&self) -> (r: WireValue)
        ensures
            r@ == self.wire_view(),
    {
        match self {
            Think::Enabled => WireValue::Flag(true),
            Think::Disabled => WireValue::Flag(false),
            Think::High => WireValue::Text("high".to_owned()),
            Think::Medium => WireValue::Text("medium".to_owned()),
            Think::Low => WireValue::Text("low".to_owned()),
        }
    }
}

} // verus!
