//! What a viewer is configured with, and the builder that sets it up.

use crate::alerts::{is_gfm, AlertBundle};
use vstd::prelude::*;

verus! {

/// The scheme put in front of an image location that has none.
pub open spec fn default_scheme() -> Seq<char> {
    seq!['f', 'i', 'l', 'e', ':', '/', '/']
}

/// How markdown is rendered.
#[derive(PartialEq, Eq, Debug)]
pub struct CommonMarkOptions {
    /// How many spaces a list item is indented by.
    pub indentation_spaces: usize,
    /// Images wider than this are scaled down.
    pub max_image_width: Option<usize>,
    /// Whether an image's alt text shows when the pointer is over it.
    pub show_alt_text_on_hover: bool,
    /// The width of the ui, where it is larger than `max_image_width`.
    pub default_width: Option<usize>,
    /// Take image locations as written, without adding a scheme.
    pub use_explicit_uri_scheme: bool,
    /// The scheme given to an image location that has none.
    pub default_implicit_uri_scheme: String,
    /// The alerts that block quotes may start with.
    pub alerts: AlertBundle,
    /// Whether the ui may change the source (task-list checkboxes).
    pub mutable: bool,
    /// Whether links to `#id` scroll to the heading with that id.
    pub enable_scroll_to_heading: bool,
    /// Whether the scrollable view renders only what is visible.
    pub use_viewport_cache: bool,
    /// The background of passive search matches, as premultiplied RGBA; the
    /// theme decides where this is `None`.
    pub search_match_bg: Option<(u8, u8, u8, u8)>,
    /// The background of the active search match, as premultiplied RGBA;
    /// the theme decides where this is `None`.
    pub search_active_match_bg: Option<(u8, u8, u8, u8)>,
    /// The id under which a full render records where its blocks start.
    pub source_id: Option<u64>,
}

impl Default for CommonMarkOptions {
    fn default() -> (res: Self)
        ensures
            res.indentation_spaces == 4,
            res.max_image_width is None,
            res.show_alt_text_on_hover,
            res.default_width is None,
            !res.use_explicit_uri_scheme,
            res.default_implicit_uri_scheme@ == default_scheme(),
            is_gfm(&res.alerts),
            !res.mutable,
            !res.enable_scroll_to_heading,
            !res.use_viewport_cache,
            res.search_match_bg is None,
            res.search_active_match_bg is None,
            res.source_id is None,
    {
        let scheme = String::from_str("file://");
        proof {
            reveal_strlit("file://");
        }
        CommonMarkOptions {
            indentation_spaces: 4,
            max_image_width: None,
            show_alt_text_on_hover: true,
            default_width: None,
            use_explicit_uri_scheme: false,
            default_implicit_uri_scheme: scheme,
            alerts: AlertBundle::gfm(),
            mutable: false,
            enable_scroll_to_heading: false,
            use_viewport_cache: false,
            search_match_bg: None,
            search_active_match_bg: None,
            source_id: None,
        }
    }
}

/// Builds the options that markdown is shown with.
#[derive(PartialEq, Eq, Debug)]
pub struct CommonMarkViewer {
    pub options: CommonMarkOptions,
}

impl Default for CommonMarkViewer {
    fn default() -> (res: Self)
        ensures
            res.options.indentation_spaces == 4,
            res.options.max_image_width is None,
            res.options.show_alt_text_on_hover,
            res.options.default_width is None,
            !res.options.use_explicit_uri_scheme,
            res.options.default_implicit_uri_scheme@ == default_scheme(),
            is_gfm(&res.options.alerts),
            !res.options.mutable,
            !res.options.enable_scroll_to_heading,
            !res.options.use_viewport_cache,
            res.options.search_match_bg is None,
            res.options.search_active_match_bg is None,
            res.options.source_id is None,
    {
        CommonMarkViewer::new()
    }
}

impl CommonMarkViewer {
    /// A viewer with the default options.
    pub fn new() -> (res: Self)
        ensures
            res.options.indentation_spaces == 4,
            res.options.max_image_width is None,
            res.options.show_alt_text_on_hover,
            res.options.default_width is None,
            !res.options.use_explicit_uri_scheme,
            res.options.default_implicit_uri_scheme@ == default_scheme(),
            is_gfm(&res.options.alerts),
            !res.options.mutable,
            !res.options.enable_scroll_to_heading,
            !res.options.use_viewport_cache,
            res.options.search_match_bg is None,
            res.options.search_active_match_bg is None,
            res.options.source_id is None,
    {
        CommonMarkViewer { options: CommonMarkOptions::default() }
    }

    /// The amount of spaces a bullet point is indented. By default this is 4
    /// spaces.
    pub fn indentation_spaces(self, spaces: usize) -> (res: Self)
        ensures
            res.options == (CommonMarkOptions { indentation_spaces: spaces, ..self.options }),
    {
        let mut v = self;
        v.options.indentation_spaces = spaces;
        v
    }

    /// The maximum size images are allowed to be. They will be scaled down if
    /// they are larger.
    pub fn max_image_width(self, width: Option<usize>) -> (res: Self)
        ensures
            res.options == (CommonMarkOptions { max_image_width: width, ..self.options }),
    {
        let mut v = self;
        v.options.max_image_width = width;
        v
    }

    /// The default width of the ui. This is only respected if it is larger
    /// than the maximum image width.
    pub fn default_width(self, width: Option<usize>) -> (res: Self)
        ensures
            res.options == (CommonMarkOptions { default_width: width, ..self.options }),
    {
        let mut v = self;
        v.options.default_width = width;
        v
    }

    /// Show alt text when hovering over images. By default this is enabled.
    pub fn show_alt_text_on_hover(self, show: bool) -> (res: Self)
        ensures
            res.options == (CommonMarkOptions { show_alt_text_on_hover: show, ..self.options }),
    {
        let mut v = self;
        v.options.show_alt_text_on_hover = show;
        v
    }

    /// Changes the scheme (`file://` by default) given to image locations
    /// that have none. This does nothing where explicit schemes are in use.
    pub fn default_implicit_uri_scheme(self, scheme: String) -> (res: Self)
        ensures
            res.options == (CommonMarkOptions { default_implicit_uri_scheme: scheme, ..self.options }),
    {
        let mut v = self;
        v.options.default_implicit_uri_scheme = scheme;
        v
    }

    /// Whether image locations are taken as written, without assuming a
    /// scheme for those that have none.
    pub fn explicit_image_uri_scheme(self, use_explicit: bool) -> (res: Self)
        ensures
            res.options == (CommonMarkOptions { use_explicit_uri_scheme: use_explicit, ..self.options }),
    {
        let mut v = self;
        v.options.use_explicit_uri_scheme = use_explicit;
        v
    }

    /// Which alerts block quotes may start with; this also localizes them.
    pub fn alerts(self, alerts: AlertBundle) -> (res: Self)
        ensures
            res.options == (CommonMarkOptions { alerts: alerts, ..self.options }),
    {
        let mut v = self;
        v.options.alerts = alerts;
        v
    }
}

} // verus!
