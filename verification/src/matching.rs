//! The matching engine.
//!
//! A matching list is an ordered sequence of filter elements. Each
//! element independently constrains zero or more of origin chain,
//! sender, destination chain and recipient; an absent constraint
//! matches any value. A candidate is admitted when at least one element
//! is fully satisfied: AND across the fields an element constrains, OR
//! across elements. The empty list matches everything by definition —
//! it is the default "no filter" state.

use vstd::prelude::*;

verus! {

/// One filter element. Chain names are matched exactly and
/// case-sensitively; addresses byte-exactly against the 32-byte
/// right-aligned form.
#[derive(Debug, Clone, PartialEq, Eq)]
pub struct ListElement {
    pub origin: Option<String>,
    pub sender: Option<Vec<u8>>,
    pub destination: Option<String>,
    pub recipient: Option<Vec<u8>>,
}

/// Mathematical shadow of a `ListElement`.
pub struct ElementModel {
    pub origin: Option<Seq<char>>,
    pub sender: Option<Seq<u8>>,
    pub destination: Option<Seq<char>>,
    pub recipient: Option<Seq<u8>>,
}

impl View for ListElement {
    type V = ElementModel;

    open spec fn view(&self) -> ElementModel {
        ElementModel {
            origin: match self.origin {
                Some(s) => Some(s@),
                None => None,
            },
            sender: match self.sender {
                Some(v) => Some(v@),
                None => None,
            },
            destination: match self.destination {
                Some(s) => Some(s@),
                None => None,
            },
            recipient: match self.recipient {
                Some(v) => Some(v@),
                None => None,
            },
        }
    }
}

/// An ordered sequence of filter elements.
#[derive(Debug, Clone, PartialEq, Eq)]
pub struct MatchingList {
    pub elements: Vec<ListElement>,
}

impl View for MatchingList {
    type V = Seq<ElementModel>;

    open spec fn view(&self) -> Seq<ElementModel> {
        self.elements@.map(|i: int, e: ListElement| e@)
    }
}

/// A chain, as the matching engine sees it: its name and routing domain.
#[derive(Debug, Clone, PartialEq, Eq)]
pub struct ChainIdentifier {
    pub name: String,
    pub domain: u32,
}

/// A decoded on-chain message event. Chain endpoints carry the chain
/// names the scanner resolved; addresses are 32-byte right-aligned.
#[derive(Debug, Clone, PartialEq, Eq)]
pub struct LogRecord {
    pub nonce: u64,
    pub origin: String,
    pub sender: Vec<u8>,
    pub destination: String,
    pub recipient: Vec<u8>,
    pub body: Vec<u8>,
}

/// Mathematical shadow of a `LogRecord`.
pub struct LogRecordModel {
    pub nonce: u64,
    pub origin: Seq<char>,
    pub sender: Seq<u8>,
    pub destination: Seq<char>,
    pub recipient: Seq<u8>,
    pub body: Seq<u8>,
}

impl View for LogRecord {
    type V = LogRecordModel;

    open spec fn view(&self) -> LogRecordModel {
        LogRecordModel {
            nonce: self.nonce,
            origin: self.origin@,
            sender: self.sender@,
            destination: self.destination@,
            recipient: self.recipient@,
            body: self.body@,
        }
    }
}

/// AND within an element: every constraint the element carries must
/// hold of the message.
pub open spec fn element_admits_message(e: ElementModel, m: LogRecordModel) -> bool {
    &&& match e.origin {
        Some(o) => o == m.origin,
        None => true,
    }
    &&& match e.sender {
        Some(s) => s == m.sender,
        None => true,
    }
    &&& match e.destination {
        Some(d) => d == m.destination,
        None => true,
    }
    &&& match e.recipient {
        Some(r) => r == m.recipient,
        None => true,
    }
}

/// For a chain candidate only the origin-chain constraint applies; the
/// other constraints speak about messages.
pub open spec fn element_admits_chain(e: ElementModel, c: Seq<char>) -> bool {
    match e.origin {
        Some(o) => o == c,
        None => true,
    }
}

/// OR across elements, with the empty list matching everything.
pub open spec fn list_admits_message(l: Seq<ElementModel>, m: LogRecordModel) -> bool {
    l.len() == 0 || exists|i: int| 0 <= i < l.len() && element_admits_message(#[trigger] l[i], m)
}

pub open spec fn list_admits_chain(l: Seq<ElementModel>, c: Seq<char>) -> bool {
    l.len() == 0 || exists|i: int| 0 <= i < l.len() && element_admits_chain(#[trigger] l[i], c)
}

/// Byte-vector equality, decided element by element.
pub fn bytes_eq(a: &Vec<u8>, b: &Vec<u8>) -> (r: bool)
    ensures
        r == (a@ == b@),
{
    if a.len() != b.len() {
        return false;
    }
    let n = a.len();
    let mut i: usize = 0;
    while i < n
        invariant
            n == a@.len(),
            n == b@.len(),
            0 <= i <= n,
            forall|j: int| 0 <= j < i ==> a@[j] == b@[j],
        decreases n - i,
    {
        if a[i] != b[i] {
            return false;
        }
        i += 1;
    }
    proof {
        assert(a@ =~= b@);
    }
    true
}

impl ListElement {
    /// An element with no constraints; it admits every candidate.
    pub fn unconstrained() -> (r: ListElement)
        ensures
            r@.origin is None,
            r@.sender is None,
            r@.destination is None,
            r@.recipient is None,
    {
        ListElement { origin: None, sender: None, destination: None, recipient: None }
    }

    pub fn admits_message(&self, m: &LogRecord) -> (r: bool)
        ensures
            r == element_admits_message(self@, m@),
    {
        let origin_ok = match &self.origin {
            Some(o) => crate::codec::str_eq(o.as_str(), m.origin.as_str()),
            None => true,
        };
        let sender_ok = match &self.sender {
            Some(s) => bytes_eq(s, &m.sender),
            None => true,
        };
        let destination_ok = match &self.destination {
            Some(d) => crate::codec::str_eq(d.as_str(), m.destination.as_str()),
            None => true,
        };
        let recipient_ok = match &self.recipient {
            Some(r) => bytes_eq(r, &m.recipient),
            None => true,
        };
        origin_ok && sender_ok && destination_ok && recipient_ok
    }

    pub fn admits_chain(&self, c: &ChainIdentifier) -> (r: bool)
        ensures
            r == element_admits_chain(self@, c.name@),
    {
        match &self.origin {
            Some(o) => crate::codec::str_eq(o.as_str(), c.name.as_str()),
            None => true,
        }
    }
}

impl MatchingList {
    /// The empty list: the default "no filter" state.
    pub fn empty() -> (r: MatchingList)
        ensures
            r@.len() == 0,
    {
        MatchingList { elements: Vec::new() }
    }

    /// Whether the list admits a message; `invert` flips the decision
    /// (reserved for deny-list use).
    pub fn message_matches(&self, m: &LogRecord, invert: bool) -> (r: bool)
        ensures
            r == (list_admits_message(self@, m@) != invert),
    {
        let n = self.elements.len();
        if n == 0 {
            return !invert;
        }
        let mut i: usize = 0;
        while i < n
            invariant
                n == self.elements@.len(),
                0 <= i <= n,
                forall|j: int| 0 <= j < i ==> !element_admits_message(#[trigger] self@[j], m@),
            decreases n - i,
        {
            if self.elements[i].admits_message(m) {
                proof {
                    assert(element_admits_message(self@[i as int], m@));
                }
                return !invert;
            }
            i += 1;
        }
        invert
    }

    /// Whether the list admits a chain; `invert` flips the decision.
    pub fn chain_matches(&self, c: &ChainIdentifier, invert: bool) -> (r: bool)
        ensures
            r == (list_admits_chain(self@, c.name@) != invert),
    {
        let n = self.elements.len();
        if n == 0 {
            return !invert;
        }
        let mut i: usize = 0;
        while i < n
            invariant
                n == self.elements@.len(),
                0 <= i <= n,
                forall|j: int| 0 <= j < i ==> !element_admits_chain(#[trigger] self@[j], c.name@),
            decreases n - i,
        {
            if self.elements[i].admits_chain(c) {
                proof {
                    assert(element_admits_chain(self@[i as int], c.name@));
                }
                return !invert;
            }
            i += 1;
        }
        invert
    }
}

/// The empty matching list admits every message and every chain.
pub proof fn lemma_empty_list_admits_all(l: Seq<ElementModel>, m: LogRecordModel, c: Seq<char>)
    requires
        l.len() == 0,
    ensures
        list_admits_message(l, m),
        list_admits_chain(l, c),
{
}

/// OR across elements, AND within an element: against a list of one
/// element constraining only the origin to `a` and one constraining
/// only the destination to `b`, a message is admitted exactly when its
/// origin is `a` or its destination is `b`.
pub proof fn lemma_or_across_and_within(
    e1: ElementModel,
    e2: ElementModel,
    m: LogRecordModel,
    a: Seq<char>,
    b: Seq<char>,
)
    requires
        e1 == (ElementModel { origin: Some(a), sender: None, destination: None, recipient: None }),
        e2 == (ElementModel { origin: None, sender: None, destination: Some(b), recipient: None }),
    ensures
        list_admits_message(seq![e1, e2], m) <==> (m.origin == a || m.destination == b),
{
    let l = seq![e1, e2];
    if m.origin == a {
        assert(element_admits_message(l[0], m));
    }
    if m.destination == b {
        assert(element_admits_message(l[1], m));
    }
    if list_admits_message(l, m) {
        let i = choose|i: int| 0 <= i < l.len() && element_admits_message(#[trigger] l[i], m);
        assert(i == 0 || i == 1);
    }
}

} // verus!
