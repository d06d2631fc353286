//! The lifecycle of the desktop widget: which configuration is current,
//! and which requests are answered with which error.
//!
//! The configuration is an opaque value of type `C` that this module never
//! looks into, apart from its shape (null, object, anything else), which
//! the caller reads off it. Creating, moving, closing and messaging the
//! widget window are done by the caller; this module decides.
use vstd::prelude::*;

verus! {

/// The top-level shape of a configuration value.
#[derive(Clone, Copy, Debug, PartialEq, Eq, Structural)]
pub enum ConfigShape {
    Null,
    Object,
    Other,
}

/// Why a widget request was refused.
#[derive(Clone, Copy, Debug, PartialEq, Eq, Structural)]
pub enum WidgetError {
    /// A pushed configuration was neither an object nor null.
    InvalidConfig,
    /// There is no widget on the desktop to update or move.
    NoWidget,
}

impl WidgetError {
    pub open spec fn text(self) -> Seq<char> {
        match self {
            WidgetError::InvalidConfig => "Failed to load widget configuration."@,
            WidgetError::NoWidget => "No widget is currently on the desktop."@,
        }
    }

    /// The message the editor shows for this error.
    pub fn message(&self) -> (m: String)
        ensures
            m@ == self.text(),
    {
        match self {
            WidgetError::InvalidConfig => String::from_str("Failed to load widget configuration."),
            WidgetError::NoWidget => String::from_str("No widget is currently on the desktop."),
        }
    }
}

/// What a push does with the widget window.
#[derive(Clone, Copy, Debug, PartialEq, Eq, Structural)]
pub enum PushAction {
    /// The widget is already up: bring it forward, move it and send it the
    /// new configuration.
    UpdateExisting,
    /// There is no widget yet: create its window.
    CreateWindow,
}

/// The configuration that is kept after storing `config`: none for a null
/// configuration, the configuration itself otherwise.
pub open spec fn kept<C>(config: C, shape: ConfigShape) -> Option<C> {
    if shape == ConfigShape::Null {
        None
    } else {
        Some(config)
    }
}

/// A pushed configuration must be an object or null.
pub open spec fn pushable(shape: ConfigShape) -> bool {
    shape == ConfigShape::Object || shape == ConfigShape::Null
}

/// The latest widget configuration, kept so that a freshly created widget
/// window can fetch it.
pub struct WidgetState<C> {
    config: Option<C>,
}

impl<C> WidgetState<C> {
    /// The configuration currently kept, if any.
    pub closed spec fn current(&self) -> Option<C> {
        self.config
    }

    /// No configuration kept yet.
    pub fn new() -> (state: Self)
        ensures
            state.current() is None,
    {
        WidgetState { config: None }
    }

    /// Keeps `config`, or forgets the configuration when it is null.
    pub fn store_config(&mut self, config: C, shape: ConfigShape)
        ensures
            final(self).current() == kept(config, shape),
    {
        self.config = if shape == ConfigShape::Null {
            None
        } else {
            Some(config)
        };
    }

    /// Pushes a configuration to the desktop: refused, with nothing
    /// changed, unless it is an object or null; otherwise it is kept, and
    /// the widget window is updated if it exists and created if not.
    pub fn push_widget(&mut self, config: C, shape: ConfigShape, window_exists: bool) -> (r: Result<PushAction, WidgetError>)
        ensures
            !pushable(shape) ==> r == Err::<PushAction, WidgetError>(WidgetError::InvalidConfig)
                && final(self).current() == old(self).current(),
            pushable(shape) ==> final(self).current() == kept(config, shape) && r == Ok::<
                PushAction,
                WidgetError,
            >(
                if window_exists {
                    PushAction::UpdateExisting
                } else {
                    PushAction::CreateWindow
                },
            ),
    {
        if shape != ConfigShape::Object && shape != ConfigShape::Null {
            return Err(WidgetError::InvalidConfig);
        }
        self.store_config(config, shape);
        if window_exists {
            Ok(PushAction::UpdateExisting)
        } else {
            Ok(PushAction::CreateWindow)
        }
    }

    /// Live update of the configuration: refused, with nothing changed,
    /// when no widget is on the desktop; otherwise the configuration is
    /// kept (the caller then sends it to the widget).
    pub fn update_widget_config(&mut self, config: C, shape: ConfigShape, window_exists: bool) -> (r: Result<(), WidgetError>)
        ensures
            !window_exists ==> r == Err::<(), WidgetError>(WidgetError::NoWidget)
                && final(self).current() == old(self).current(),
            window_exists ==> r is Ok && final(self).current() == kept(config, shape),
    {
        if !window_exists {
            return Err(WidgetError::NoWidget);
        }
        self.store_config(config, shape);
        Ok(())
    }

    /// The configuration a widget fetches when it loads: the one kept, or
    /// none.
    pub fn get_widget_config(&self) -> (r: Option<&C>)
        ensures
            r == match self.current() {
                Some(c) => Some(&c),
                None => None,
            },
    {
        match &self.config {
            Some(c) => Some(c),
            None => None,
        }
    }

    /// Forgets the configuration when the widget is deleted.
    pub fn delete_widget(&mut self)
        ensures
            final(self).current() is None,
    {
        self.config = None;
    }
}

/// What a widget reads back after a configuration is stored: exactly that
/// configuration, or none when it was null.
pub proof fn lemma_read_back<C>(config: C, shape: ConfigShape)
    ensures
        shape != ConfigShape::Null ==> kept(config, shape) == Some(config),
        shape == ConfigShape::Null ==> kept(config, shape) is None,
{
}

/// Moving the widget needs a widget on the desktop.
pub fn require_widget(window_exists: bool) -> (r: Result<(), WidgetError>)
    ensures
        r is Ok <==> window_exists,
        !window_exists ==> r == Err::<(), WidgetError>(WidgetError::NoWidget),
{
    if window_exists {
        Ok(())
    } else {
        Err(WidgetError::NoWidget)
    }
}

} // verus!
