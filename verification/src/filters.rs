//! The capture filters: which protocols, ports and addresses to show or hide.

use crate::text::{contains, name_starts_with};
// Names that only contracts and proofs use.
#[allow(unused_imports)]
use crate::text::{has_substring, name_matches};
use vstd::prelude::*;

verus! {

/// The filters of a capture session: protocols, ports and addresses to
/// include, those to exclude, and whether to hide MAC addresses.
pub struct Filters {
    pub proto: Vec<String>,
    pub port: Vec<u16>,
    pub ip: Vec<String>,
    pub exc_proto: Vec<String>,
    pub exc_port: Vec<u16>,
    pub exc_ip: Vec<String>,
    pub no_mac: bool,
}

/// What the filters hold: protocol, port and address texts to include and to
/// exclude, and whether MAC addresses are hidden.
pub struct FilterSet {
    pub incl: Seq<Seq<char>>,
    pub ports: Seq<u16>,
    pub ips: Seq<Seq<char>>,
    pub exc: Seq<Seq<char>>,
    pub exc_ports: Seq<u16>,
    pub exc_ips: Seq<Seq<char>>,
    pub no_mac: bool,
}

impl View for Filters {
    type V = FilterSet;

    open spec fn view(&self) -> FilterSet {
        FilterSet {
            incl: self.proto.deep_view(),
            ports: self.port@,
            ips: self.ip.deep_view(),
            exc: self.exc_proto.deep_view(),
            exc_ports: self.exc_port@,
            exc_ips: self.exc_ip.deep_view(),
            no_mac: self.no_mac,
        }
    }
}

/// Some filter of `filters` matches the protocol name `name`, ignoring case.
pub open spec fn some_name_match(name: Seq<char>, filters: Seq<Seq<char>>) -> bool {
    exists|i: int| 0 <= i < filters.len() && name_matches(name, #[trigger] filters[i])
}

/// Some filter of `filters` occurs in `a` or in `b`.
pub open spec fn some_text_match(a: Seq<char>, b: Seq<char>, filters: Seq<Seq<char>>) -> bool {
    exists|i: int|
        0 <= i < filters.len() && (has_substring(a, #[trigger] filters[i]) || has_substring(
            b,
            filters[i],
        ))
}

/// Some port of `filters` is the source or the destination port.
pub open spec fn some_port_match(src: Option<u16>, dst: Option<u16>, filters: Seq<u16>) -> bool {
    exists|i: int|
        0 <= i < filters.len() && (src == Some(#[trigger] filters[i]) || dst == Some(filters[i]))
}

/// Whether some filter matches the protocol name `name`: the case-folded name
/// starts with the case-folded filter.
pub fn any_name_matches(name: &str, filters: &Vec<String>) -> (res: bool)
    ensures
        res == some_name_match(name@, filters.deep_view()),
{
    let n = filters.len();
    let mut i: usize = 0;
    while i < n
        invariant
            n == filters@.len(),
            i <= n,
            forall|k: int| 0 <= k < i ==> !name_matches(name@, #[trigger] filters.deep_view()[k]),
        decreases n - i,
    {
        if name_starts_with(name, filters[i].as_str()) {
            assert(name_matches(name@, filters.deep_view()[i as int]));
            return true;
        }
        i = i + 1;
    }
    false
}

/// Whether some filter occurs in `a` or in `b`.
pub fn any_text_matches(a: &str, b: &str, filters: &Vec<String>) -> (res: bool)
    ensures
        res == some_text_match(a@, b@, filters.deep_view()),
{
    let n = filters.len();
    let mut i: usize = 0;
    while i < n
        invariant
            n == filters@.len(),
            i <= n,
            forall|k: int|
                0 <= k < i ==> !(has_substring(a@, #[trigger] filters.deep_view()[k])
                    || has_substring(b@, filters.deep_view()[k])),
        decreases n - i,
    {
        let f = filters[i].as_str();
        if contains(a, f) || contains(b, f) {
            assert(has_substring(a@, filters.deep_view()[i as int]) || has_substring(
                b@,
                filters.deep_view()[i as int],
            ));
            return true;
        }
        i = i + 1;
    }
    false
}

/// Whether some port of `filters` is `src` or `dst`.
pub fn any_port_matches(src: Option<u16>, dst: Option<u16>, filters: &Vec<u16>) -> (res: bool)
    ensures
        res == some_port_match(src, dst, filters@),
{
    let n = filters.len();
    let mut i: usize = 0;
    while i < n
        invariant
            n == filters@.len(),
            i <= n,
            forall|k: int|
                0 <= k < i ==> !(src == Some(#[trigger] filters@[k]) || dst == Some(filters@[k])),
        decreases n - i,
    {
        let p = filters[i];
        if src == Some(p) || dst == Some(p) {
            return true;
        }
        i = i + 1;
    }
    false
}

} // verus!
