use crate::payload::Payload;
use vstd::prelude::*;

verus! {

/// The URL that `href` names when read relative to `base`, or `None` where the two do not make
/// a valid URL.
pub uninterp spec fn url_join(base: Seq<char>, href: Seq<char>) -> Option<Seq<char>>;

/// Relies on `url::Url::parse` and `url::Url::join` (as re-exported by reqwest): `base` is
/// parsed, `href` is resolved against it, and the result is serialized.
#[verifier::external_body]
pub(crate) fn resolve_against(base: &str, href: &str) -> (r: Option<String>)
    ensures
        match r {
            Some(s) => url_join(base@, href@) == Some(s@),
            None => url_join(base@, href@) is None,
        },
{
    match reqwest::Url::parse(base) {
        Ok(b) => match b.join(href) {
            Ok(joined) => Some(String::from(joined)),
            Err(_) => None,
        },
        Err(_) => None,
    }
}

/// The locations a navigator knows of.
pub ghost struct NavModel {
    pub location: Seq<char>,
    pub history: Seq<Seq<char>>,
    pub future: Seq<Seq<char>>,
}

impl NavModel {
    /// A navigator that starts at `location`, with nothing behind or ahead.
    pub open spec fn start(location: Seq<char>) -> NavModel {
        NavModel { location, history: Seq::empty(), future: Seq::empty() }
    }

    /// The back control is enabled: the entry for the starting location does not count.
    pub open spec fn has_history(self) -> bool {
        self.history.len() > 1
    }

    pub open spec fn has_future(self) -> bool {
        self.future.len() > 0
    }

    /// After a successful navigation to `target`.
    pub open spec fn navigated(self, target: Seq<char>) -> NavModel {
        NavModel { location: target, history: self.history.push(self.location), future: Seq::empty() }
    }

    /// After a successful step back; unchanged where there is no history.
    pub open spec fn went_back(self) -> NavModel {
        if self.has_history() {
            NavModel {
                location: self.history.last(),
                history: self.history.drop_last(),
                future: self.future.push(self.location),
            }
        } else {
            self
        }
    }

    /// After a successful step forward; unchanged where there is no future.
    pub open spec fn went_forward(self) -> NavModel {
        if self.has_future() {
            NavModel {
                location: self.future.last(),
                history: self.history.push(self.location),
                future: self.future.drop_last(),
            }
        } else {
            self
        }
    }
}

/// The location of a page and its history.
///
/// Fetching is left to the caller: it asks for the location to load, loads it, and hands the
/// page back only where loading succeeded. A failed load leaves the navigator as it was.
pub struct Navigator {
    current_url: String,
    current_page: Option<Payload>,
    history: Vec<String>,
    future: Vec<String>,
}

pub open spec fn locations(v: Seq<String>) -> Seq<Seq<char>> {
    v.map_values(|s: String| s@)
}

proof fn lemma_locations_push(v: Seq<String>, s: String)
    ensures
        locations(v.push(s)) == locations(v).push(s@),
{
    assert(locations(v.push(s)) =~= locations(v).push(s@));
}

proof fn lemma_locations_drop_last(v: Seq<String>)
    requires
        v.len() > 0,
    ensures
        locations(v.drop_last()) == locations(v).drop_last(),
        locations(v).last() == v.last()@,
{
    assert(locations(v.drop_last()) =~= locations(v).drop_last());
}

impl View for Navigator {
    type V = NavModel;

    closed spec fn view(&self) -> NavModel {
        NavModel {
            location: self.current_url@,
            history: locations(self.history@),
            future: locations(self.future@),
        }
    }
}

impl Navigator {
    /// The page that was loaded last, if any.
    pub closed spec fn page(&self) -> Option<Payload> {
        self.current_page
    }

    /// A navigator at `start` (the working directory, as a URL, for relative file names),
    /// with no page loaded.
    pub fn new(start: String) -> (r: Navigator)
        ensures
            r@ == NavModel::start(start@),
            r.page() is None,
    {
        let r = Navigator {
            current_url: start,
            current_page: None,
            history: Vec::new(),
            future: Vec::new(),
        };
        assert(r@.history =~= Seq::<Seq<char>>::empty());
        assert(r@.future =~= Seq::<Seq<char>>::empty());
        r
    }

    /// The location that `href` names, read relative to the current location.
    pub fn resolve(&self, href: &str) -> (r: Option<String>)
        ensures
            match r {
                Some(s) => url_join(self@.location, href@) == Some(s@),
                None => url_join(self@.location, href@) is None,
            },
    {
        resolve_against(self.current_url.as_str(), href)
    }

    /// Records a successful navigation to `target`, whose page is `page`.
    pub fn navigate(&mut self, target: String, page: Payload)
        ensures
            final(self)@ == old(self)@.navigated(target@),
            final(self).page() == Some(page),
    {
        let old_url = self.current_url.clone();
        self.current_url = target;
        self.current_page = Some(page);
        proof {
            lemma_locations_push(self.history@, old_url);
        }
        self.history.push(old_url);
        self.future.clear();
        assert(locations(self.future@) =~= Seq::<Seq<char>>::empty());
    }

    pub fn has_history(&self) -> (r: bool)
        ensures
            r == self@.has_history(),
    {
        self.history.len() > 1
    }

    pub fn has_future(&self) -> (r: bool)
        ensures
            r == self@.has_future(),
    {
        self.future.len() > 0
    }

    /// The location that a step back loads, if a step back is possible.
    pub fn back_target(&self) -> (r: Option<String>)
        ensures
            (r is Some) == self@.has_history(),
            r matches Some(s) ==> s@ == self@.history.last(),
    {
        if self.history.len() > 1 {
            proof {
                lemma_locations_drop_last(self.history@);
            }
            Some(self.history[self.history.len() - 1].clone())
        } else {
            None
        }
    }

    /// Records a successful step back, whose page is `page`; nothing changes where there is
    /// no history.
    pub fn back(&mut self, page: Payload)
        ensures
            final(self)@ == old(self)@.went_back(),
            final(self).page() == if old(self)@.has_history() {
                Some(page)
            } else {
                old(self).page()
            },
    {
        if self.history.len() <= 1 {
            return;
        }
        proof {
            lemma_locations_drop_last(self.history@);
        }
        let prev = self.history.pop().unwrap();
        let old_url = self.current_url.clone();
        self.current_url = prev;
        self.current_page = Some(page);
        proof {
            lemma_locations_push(self.future@, old_url);
        }
        self.future.push(old_url);
    }

    /// The location that a step forward loads, if a step forward is possible.
    pub fn forward_target(&self) -> (r: Option<String>)
        ensures
            (r is Some) == self@.has_future(),
            r matches Some(s) ==> s@ == self@.future.last(),
    {
        if self.future.len() > 0 {
            proof {
                lemma_locations_drop_last(self.future@);
            }
            Some(self.future[self.future.len() - 1].clone())
        } else {
            None
        }
    }

    /// Records a successful step forward, whose page is `page`; nothing changes where there is
    /// no future.
    pub fn forward(&mut self, page: Payload)
        ensures
            final(self)@ == old(self)@.went_forward(),
            final(self).page() == if old(self)@.has_future() {
                Some(page)
            } else {
                old(self).page()
            },
    {
        if self.future.len() == 0 {
            return;
        }
        proof {
            lemma_locations_drop_last(self.future@);
        }
        let next = self.future.pop().unwrap();
        let old_url = self.current_url.clone();
        self.current_url = next;
        self.current_page = Some(page);
        proof {
            lemma_locations_push(self.history@, old_url);
        }
        self.history.push(old_url);
    }

    /// The location that a refresh loads.
    pub fn current_location(&self) -> (r: &str)
        ensures
            r@ == self@.location,
    {
        self.current_url.as_str()
    }

    /// Records a successful reload of the current location, whose page is `page`.
    pub fn refresh(&mut self, page: Payload)
        ensures
            final(self)@ == old(self)@,
            final(self).page() == Some(page),
    {
        self.current_page = Some(page);
    }

    /// Reads the current page's payload.
    pub fn current(&self) -> (r: Option<&Payload>)
        ensures
            (r is Some) == (self.page() is Some),
            r matches Some(p) ==> *p == self.page()->Some_0,
    {
        self.current_page.as_ref()
    }
}

/// The back control is off after the first navigation from the start, and on after any
/// navigation that follows one.
pub proof fn lemma_history_after_navigations(start: Seq<char>, first: Seq<char>, m: NavModel, target: Seq<char>)
    requires
        m.history.len() >= 1,
    ensures
        !NavModel::start(start).navigated(first).has_history(),
        m.navigated(target).has_history(),
{
}

/// A step back followed by a step forward restores the location, history and future.
pub proof fn lemma_back_then_forward(m: NavModel)
    requires
        m.has_history(),
    ensures
        m.went_back().went_forward() == m,
{
    let b = m.went_back();
    assert(b.has_future());
    assert(b.went_forward().history =~= m.history);
    assert(b.went_forward().future =~= m.future);
}

/// A navigation leaves nothing ahead, whatever was ahead before.
pub proof fn lemma_navigate_clears_future(m: NavModel, target: Seq<char>)
    ensures
        m.navigated(target).future.len() == 0,
{
}

} // verus!
