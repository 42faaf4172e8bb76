use crate::navigator::url_join;
use crate::payload::Payload;
use vstd::prelude::*;

verus! {

/// Information about the connected pad.
pub struct LaunchPadInfo {
    /// The model of the pad.
    pub model: String,
    /// How many buttons it has in the X dimension.
    pub width: u32,
    /// How many buttons it has in the Y dimension.
    pub height: u32,
}

/// A location and the page loaded from it, without history.
///
/// As with `Navigator`, loading is left to the caller, who records only a successful load.
pub struct Browser {
    current_url: String,
    current_page: Option<Payload>,
}

impl Browser {
    /// The current location.
    pub closed spec fn location(&self) -> Seq<char> {
        self.current_url@
    }

    /// The page that was loaded last, if any.
    pub closed spec fn page(&self) -> Option<Payload> {
        self.current_page
    }

    /// A browser at `start` (the working directory, as a URL, for relative file names), with
    /// no page loaded.
    pub fn new(start: String) -> (r: Browser)
        ensures
            r.location() == start@,
            r.page() is None,
    {
        Browser { current_url: start, current_page: None }
    }

    /// The location that `href` names, read relative to the current location.
    pub fn resolve(&self, href: &str) -> (r: Option<String>)
        ensures
            match r {
                Some(s) => url_join(self.location(), href@) == Some(s@),
                None => url_join(self.location(), href@) is None,
            },
    {
        crate::navigator::resolve_against(self.current_url.as_str(), href)
    }

    /// Records a successful navigation to `target`, whose page is `page`.
    pub fn navigate(&mut self, target: String, page: Payload)
        ensures
            final(self).location() == target@,
            final(self).page() == Some(page),
    {
        self.current_url = target;
        self.current_page = Some(page);
    }

    /// Reads the current page's payload.
    pub fn current(&self) -> (r: Option<&Payload>)
        ensures
            (r is Some) == (self.page() is Some),
            r matches Some(p) ==> *p == self.page()->Some_0,
    {
        self.current_page.as_ref()
    }
}

} // verus!
