use vstd::prelude::*;
use vstd::string::StringExecFns;

verus! {

/// The abstract value of a [`ScrapingTarget`]: the same five fields with
/// the strings seen as character sequences.
#[verifier::ext_equal]
pub ghost struct TargetView {
    pub name: Seq<char>,
    pub url: Seq<char>,
    pub key: Seq<char>,
    pub active: Option<bool>,
    pub is_test: Option<bool>,
}

/// One product-watch definition: a retailer `key` that selects the site
/// adapter, a human label `name`, the page `url`, and the `active` /
/// `is_test` flags (either flag may be absent; an absent `active` counts
/// as active). Read-only during a polling cycle.
#[derive(Debug)]
pub struct ScrapingTarget {
    pub name: String,
    pub url: String,
    pub key: String,
    pub active: Option<bool>,
    pub is_test: Option<bool>,
}

impl View for ScrapingTarget {
    type V = TargetView;

    open spec fn view(&self) -> TargetView {
        TargetView {
            name: self.name@,
            url: self.url@,
            key: self.key@,
            active: self.active,
            is_test: self.is_test,
        }
    }
}

impl DeepView for ScrapingTarget {
    type V = TargetView;

    open spec fn deep_view(&self) -> TargetView {
        self@
    }
}

impl Clone for ScrapingTarget {
    fn clone(&self) -> (r: Self)
        ensures
            r@ == self@,
    {
        ScrapingTarget {
            name: self.name.clone(),
            url: self.url.clone(),
            key: self.key.clone(),
            active: self.active,
            is_test: self.is_test,
        }
    }
}

impl PartialEq for ScrapingTarget {
    fn eq(&self, other: &Self) -> (r: bool) {
        self.name == other.name && self.url == other.url && self.key == other.key
            && self.active == other.active && self.is_test == other.is_test
    }
}

impl vstd::std_specs::cmp::PartialEqSpecImpl for ScrapingTarget {
    open spec fn obeys_eq_spec() -> bool {
        true
    }

    open spec fn eq_spec(&self, other: &Self) -> bool {
        self@ == other@
    }
}

/// Whether a target takes part in the cycle running at minute `minute`
/// (0..60 of the wall clock). Only an explicit `active: Some(false)`
/// excludes a target: an absent flag defaults to active. A test target is
/// checked only on the reduced cadence of every tenth minute, unless
/// `check_tests_every_cycle` asks for every cycle; an ordinary active
/// target is always checked.
pub open spec fn spec_is_active(t: TargetView, minute: u8, check_tests_every_cycle: bool) -> bool {
    if t.active == Some(false) {
        false
    } else if t.is_test == Some(true) {
        check_tests_every_cycle || minute % 10 == 0
    } else {
        true
    }
}

/// The "new stock" notification line for a target.
pub open spec fn spec_new_stock_message(t: TargetView) -> Seq<char> {
    t.key + " has new "@ + t.name + " for sale at "@ + t.url + "!"@
}

impl ScrapingTarget {
    /// Whether this target is polled in the cycle running at wall-clock
    /// minute `minute`; see [`spec_is_active`].
    pub fn is_active(&self, minute: u8, check_tests_every_cycle: bool) -> (r: bool)
        ensures
            r == spec_is_active(self@, minute, check_tests_every_cycle),
    {
        if self.active == Some(false) {
            false
        } else if self.is_test == Some(true) {
            check_tests_every_cycle || minute % 10 == 0
        } else {
            true
        }
    }

    /// The human-readable restock notification message for this target.
    pub fn new_stock_message(&self) -> (r: String)
        ensures
            r@ == spec_new_stock_message(self@),
    {
        let mut s = self.key.as_str().to_owned();
        s.append(" has new ");
        s.append(self.name.as_str());
        s.append(" for sale at ");
        s.append(self.url.as_str());
        s.append("!");
        s
    }
}

} // verus!
