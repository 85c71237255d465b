//! The metavariables that the gateway hands to a script.

use vstd::prelude::*;

verus! {

/// One of the metavariables of CGI/1.1.
#[derive(Clone, Copy, Debug, PartialEq, Eq, Hash, Structural)]
pub enum CGIMetavariable {
    AuthType,
    ContentLength,
    ContentType,
    GatewayInterface,
    PathInfo,
    PathTranslated,
    QueryString,
    RemoteAddr,
    RemoteHost,
    RemoteIdent,
    RemoteUser,
    RequestMethod,
    ScriptName,
    ServerName,
    ServerPort,
    ServerProtocol,
    ServerSoftware,
}

/// How many metavariables there are.
pub const METAVARIABLE_COUNT: usize = 17;

impl CGIMetavariable {
    /// The name under which a script finds this metavariable.
    pub open spec fn name(self) -> Seq<char> {
        match self {
            CGIMetavariable::AuthType => "AUTH_TYPE"@,
            CGIMetavariable::ContentLength => "CONTENT_LENGTH"@,
            CGIMetavariable::ContentType => "CONTENT_TYPE"@,
            CGIMetavariable::GatewayInterface => "GATEWAY_INTERFACE"@,
            CGIMetavariable::PathInfo => "PATH_INFO"@,
            CGIMetavariable::PathTranslated => "PATH_TRANSLATED"@,
            CGIMetavariable::QueryString => "QUERY_STRING"@,
            CGIMetavariable::RemoteAddr => "REMOTE_ADDR"@,
            CGIMetavariable::RemoteHost => "REMOTE_HOST"@,
            CGIMetavariable::RemoteIdent => "REMOTE_IDENT"@,
            CGIMetavariable::RemoteUser => "REMOTE_USER"@,
            CGIMetavariable::RequestMethod => "REQUEST_METHOD"@,
            CGIMetavariable::ScriptName => "SCRIPT_NAME"@,
            CGIMetavariable::ServerName => "SERVER_NAME"@,
            CGIMetavariable::ServerPort => "SERVER_PORT"@,
            CGIMetavariable::ServerProtocol => "SERVER_PROTOCOL"@,
            CGIMetavariable::ServerSoftware => "SERVER_SOFTWARE"@,
        }
    }

    /// The place of this metavariable in the list of all of them.
    pub open spec fn ordinal(self) -> int {
        match self {
            CGIMetavariable::AuthType => 0,
            CGIMetavariable::ContentLength => 1,
            CGIMetavariable::ContentType => 2,
            CGIMetavariable::GatewayInterface => 3,
            CGIMetavariable::PathInfo => 4,
            CGIMetavariable::PathTranslated => 5,
            CGIMetavariable::QueryString => 6,
            CGIMetavariable::RemoteAddr => 7,
            CGIMetavariable::RemoteHost => 8,
            CGIMetavariable::RemoteIdent => 9,
            CGIMetavariable::RemoteUser => 10,
            CGIMetavariable::RequestMethod => 11,
            CGIMetavariable::ScriptName => 12,
            CGIMetavariable::ServerName => 13,
            CGIMetavariable::ServerPort => 14,
            CGIMetavariable::ServerProtocol => 15,
            CGIMetavariable::ServerSoftware => 16,
        }
    }

    /// The metavariable at place `i`.
    pub open spec fn at(i: int) -> CGIMetavariable {
        if i == 0 {
            CGIMetavariable::AuthType
        } else if i == 1 {
            CGIMetavariable::ContentLength
        } else if i == 2 {
            CGIMetavariable::ContentType
        } else if i == 3 {
            CGIMetavariable::GatewayInterface
        } else if i == 4 {
            CGIMetavariable::PathInfo
        } else if i == 5 {
            CGIMetavariable::PathTranslated
        } else if i == 6 {
            CGIMetavariable::QueryString
        } else if i == 7 {
            CGIMetavariable::RemoteAddr
        } else if i == 8 {
            CGIMetavariable::RemoteHost
        } else if i == 9 {
            CGIMetavariable::RemoteIdent
        } else if i == 10 {
            CGIMetavariable::RemoteUser
        } else if i == 11 {
            CGIMetavariable::RequestMethod
        } else if i == 12 {
            CGIMetavariable::ScriptName
        } else if i == 13 {
            CGIMetavariable::ServerName
        } else if i == 14 {
            CGIMetavariable::ServerPort
        } else if i == 15 {
            CGIMetavariable::ServerProtocol
        } else {
            CGIMetavariable::ServerSoftware
        }
    }

    /// The name under which a script finds this metavariable.
    pub fn as_str(&self) -> (r: &'static str)
        ensures
            r@ == self.name(),
    {
        match self {
            CGIMetavariable::AuthType => "AUTH_TYPE",
            CGIMetavariable::ContentLength => "CONTENT_LENGTH",
            CGIMetavariable::ContentType => "CONTENT_TYPE",
            CGIMetavariable::GatewayInterface => "GATEWAY_INTERFACE",
            CGIMetavariable::PathInfo => "PATH_INFO",
            CGIMetavariable::PathTranslated => "PATH_TRANSLATED",
            CGIMetavariable::QueryString => "QUERY_STRING",
            CGIMetavariable::RemoteAddr => "REMOTE_ADDR",
            CGIMetavariable::RemoteHost => "REMOTE_HOST",
            CGIMetavariable::RemoteIdent => "REMOTE_IDENT",
            CGIMetavariable::RemoteUser => "REMOTE_USER",
            CGIMetavariable::RequestMethod => "REQUEST_METHOD",
            CGIMetavariable::ScriptName => "SCRIPT_NAME",
            CGIMetavariable::ServerName => "SERVER_NAME",
            CGIMetavariable::ServerPort => "SERVER_PORT",
            CGIMetavariable::ServerProtocol => "SERVER_PROTOCOL",
            CGIMetavariable::ServerSoftware => "SERVER_SOFTWARE",
        }
    }

    /// The place of this metavariable in the list of all of them.
    pub fn index(&self) -> (r: usize)
        ensures
            r == self.ordinal(),
            r < METAVARIABLE_COUNT,
            CGIMetavariable::at(r as int) == *self,
    {
        match self {
            CGIMetavariable::AuthType => 0,
            CGIMetavariable::ContentLength => 1,
            CGIMetavariable::ContentType => 2,
            CGIMetavariable::GatewayInterface => 3,
            CGIMetavariable::PathInfo => 4,
            CGIMetavariable::PathTranslated => 5,
            CGIMetavariable::QueryString => 6,
            CGIMetavariable::RemoteAddr => 7,
            CGIMetavariable::RemoteHost => 8,
            CGIMetavariable::RemoteIdent => 9,
            CGIMetavariable::RemoteUser => 10,
            CGIMetavariable::RequestMethod => 11,
            CGIMetavariable::ScriptName => 12,
            CGIMetavariable::ServerName => 13,
            CGIMetavariable::ServerPort => 14,
            CGIMetavariable::ServerProtocol => 15,
            CGIMetavariable::ServerSoftware => 16,
        }
    }

    /// The metavariable at place `i`.
    pub fn from_index(i: usize) -> (r: CGIMetavariable)
        requires
            i < METAVARIABLE_COUNT,
        ensures
            r == CGIMetavariable::at(i as int),
            r.ordinal() == i,
    {
        if i == 0 {
            CGIMetavariable::AuthType
        } else if i == 1 {
            CGIMetavariable::ContentLength
        } else if i == 2 {
            CGIMetavariable::ContentType
        } else if i == 3 {
            CGIMetavariable::GatewayInterface
        } else if i == 4 {
            CGIMetavariable::PathInfo
        } else if i == 5 {
            CGIMetavariable::PathTranslated
        } else if i == 6 {
            CGIMetavariable::QueryString
        } else if i == 7 {
            CGIMetavariable::RemoteAddr
        } else if i == 8 {
            CGIMetavariable::RemoteHost
        } else if i == 9 {
            CGIMetavariable::RemoteIdent
        } else if i == 10 {
            CGIMetavariable::RemoteUser
        } else if i == 11 {
            CGIMetavariable::RequestMethod
        } else if i == 12 {
            CGIMetavariable::ScriptName
        } else if i == 13 {
            CGIMetavariable::ServerName
        } else if i == 14 {
            CGIMetavariable::ServerPort
        } else if i == 15 {
            CGIMetavariable::ServerProtocol
        } else {
            CGIMetavariable::ServerSoftware
        }
    }
}

/// The metavariables of one request, each with its value. A metavariable
/// has at most one value. The map keeps one slot for each metavariable, in
/// the order of their places.
#[derive(Debug, PartialEq, Eq)]
pub struct CGIMetavariableMap {
    slots: Vec<Option<String>>,
}

impl View for CGIMetavariableMap {
    type V = Map<CGIMetavariable, Seq<char>>;

    closed spec fn view(&self) -> Map<CGIMetavariable, Seq<char>> {
        Map::new(
            |key: CGIMetavariable|
                key.ordinal() < self.slots@.len() && self.slots@[key.ordinal()] is Some,
            |key: CGIMetavariable| self.slots@[key.ordinal()]->0@,
        )
    }
}

/// The variables of `map` whose place is under `n`, in the order of their
/// places, each as its name and its value.
pub open spec fn listed(map: Map<CGIMetavariable, Seq<char>>, n: int) -> Seq<
    (Seq<char>, Seq<char>),
>
    decreases n,
{
    if n <= 0 {
        Seq::empty()
    } else {
        let key = CGIMetavariable::at(n - 1);
        if map.dom().contains(key) {
            listed(map, n - 1).push((key.name(), map[key]))
        } else {
            listed(map, n - 1)
        }
    }
}

/// The variables of `map`, in the order in which `CGIMetavariable` lists
/// them, each as its name and its value.
pub open spec fn variables_of(map: Map<CGIMetavariable, Seq<char>>) -> Seq<
    (Seq<char>, Seq<char>),
> {
    listed(map, METAVARIABLE_COUNT as int)
}

/// The names and values that a list of pairs of strings holds.
pub open spec fn pairs_view(pairs: Seq<(String, String)>) -> Seq<(Seq<char>, Seq<char>)> {
    Seq::new(pairs.len(), |i: int| (pairs[i].0@, pairs[i].1@))
}

impl CGIMetavariableMap {
    /// The map without any variable.
    pub fn new() -> (r: CGIMetavariableMap)
        ensures
            r@ == Map::<CGIMetavariable, Seq<char>>::empty(),
    {
        let mut slots: Vec<Option<String>> = Vec::new();
        let mut i: usize = 0;
        while i < METAVARIABLE_COUNT
            invariant
                i <= METAVARIABLE_COUNT,
                slots@.len() == i,
                forall|j: int| 0 <= j < i ==> slots@[j] is None,
            decreases METAVARIABLE_COUNT - i,
        {
            slots.push(None);
            i = i + 1;
        }
        let r = CGIMetavariableMap { slots };
        proof {
            assert(r@ =~= Map::<CGIMetavariable, Seq<char>>::empty());
        }
        r
    }

    /// Gives `key` the value `value`, in place of the value that it had.
    pub fn insert(&mut self, key: CGIMetavariable, value: String)
        ensures
            final(self)@ == old(self)@.insert(key, value@),
    {
        let at = key.index();
        while self.slots.len() <= at
            invariant
                self@ =~= old(self)@,
            decreases at + 1 - self.slots@.len(),
        {
            self.slots.push(None);
        }
        self.slots.set(at, Some(value));
        proof {
            assert forall|k: CGIMetavariable| k != key implies k.ordinal() != key.ordinal() by {
                assert(CGIMetavariable::at(k.ordinal()) == k);
            }
            assert(final(self)@ =~= old(self)@.insert(key, value@));
        }
    }

    /// The value of `key`, if it has one.
    pub fn get(&self, key: CGIMetavariable) -> (r: Option<&String>)
        ensures
            match r {
                Some(value) => self@.dom().contains(key) && self@[key] == value@,
                None => !self@.dom().contains(key),
            },
    {
        let at = key.index();
        if at < self.slots.len() {
            self.slots[at].as_ref()
        } else {
            None
        }
    }

    /// The variables with their values, each as its name and its value, in
    /// the order in which `CGIMetavariable` lists them.
    pub fn variables(&self) -> (r: Vec<(String, String)>)
        ensures
            pairs_view(r@) == variables_of(self@),
    {
        let mut out: Vec<(String, String)> = Vec::new();
        let mut i: usize = 0;
        proof {
            assert(pairs_view(out@) =~= listed(self@, 0));
        }
        while i < METAVARIABLE_COUNT
            invariant
                i <= METAVARIABLE_COUNT,
                pairs_view(out@) == listed(self@, i as int),
            decreases METAVARIABLE_COUNT - i,
        {
            let key = CGIMetavariable::from_index(i);
            let ghost before = pairs_view(out@);
            match self.get(key) {
                Some(value) => {
                    out.push((key.as_str().to_owned(), value.clone()));
                    proof {
                        assert(pairs_view(out@) =~= before.push((key.name(), self@[key])));
                    }
                },
                None => {},
            }
            i = i + 1;
        }
        out
    }
}

impl Clone for CGIMetavariableMap {
    fn clone(&self) -> (r: CGIMetavariableMap)
        ensures
            r@ == self@,
    {
        let mut slots: Vec<Option<String>> = Vec::new();
        let mut i: usize = 0;
        while i < self.slots.len()
            invariant
                i <= self.slots@.len(),
                slots@.len() == i,
                forall|j: int|
                    0 <= j < i ==> (#[trigger] slots@[j] is Some) == (self.slots@[j] is Some) && (
                    slots@[j] is Some ==> slots@[j]->0@ == self.slots@[j]->0@),
            decreases self.slots@.len() - i,
        {
            let slot = match &self.slots[i] {
                Some(value) => Some(value.clone()),
                None => None,
            };
            slots.push(slot);
            i = i + 1;
        }
        let r = CGIMetavariableMap { slots };
        proof {
            assert(r@ =~= self@);
        }
        r
    }
}

} // verus!
