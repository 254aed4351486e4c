//! XPC messages as the client reads and writes them.
//!
//! An [`XpcDict`] is the content of an XPC dictionary: its type (a plain
//! dictionary, or the error sentinel that libxpc hands back when a connection
//! fails) and the values under its keys. The transport moves these contents
//! to and from libxpc; everything the client decides about them is here.

use vstd::prelude::*;

use crate::error::Error;
use crate::routes::ApiErrorPayload;
use crate::text::{contains_nul, debug_quote, debug_quoted, has_nul};

verus! {

/// XPC dictionary key identifying the requested operation.
pub const ROUTE_KEY: &'static str = "com.apple.container.xpc.route";

/// XPC dictionary key carrying a JSON-encoded error on failure.
pub const ERROR_KEY: &'static str = "com.apple.container.xpc.error";

/// Key under which libxpc describes an error object (`XPC_ERROR_KEY_DESCRIPTION`).
pub const ERROR_DESCRIPTION_KEY: &'static str = "XPCErrorDescription";

/// The type of an XPC object that travels as a dictionary.
#[derive(Clone, Copy, Debug)]
pub enum XpcType {
    /// An ordinary dictionary.
    Dictionary,
    /// The error sentinel (`XPC_TYPE_ERROR`), such as a broken connection.
    Error,
}

/// A value stored under a key of an XPC dictionary.
#[derive(Debug)]
pub enum XpcValue {
    /// An `xpc_string`.
    String(String),
    /// An `xpc_data` blob.
    Data(Vec<u8>),
    /// An `xpc_array`, of which the client reads only the number of items;
    /// the items stay with the XPC object.
    Array(usize),
    /// Any other XPC type.
    Other,
}

/// The mathematical form of an [`XpcValue`].
pub enum XpcValueView {
    String(Seq<char>),
    Data(Seq<u8>),
    Array(usize),
    Other,
}

impl View for XpcValue {
    type V = XpcValueView;

    open spec fn view(&self) -> XpcValueView {
        match self {
            XpcValue::String(s) => XpcValueView::String(s@),
            XpcValue::Data(b) => XpcValueView::Data(b@),
            XpcValue::Array(n) => XpcValueView::Array(*n),
            XpcValue::Other => XpcValueView::Other,
        }
    }
}

impl XpcValue {
    /// A copy of the value.
    pub fn duplicate(&self) -> (r: XpcValue)
        ensures
            r@ == self@,
    {
        match self {
            XpcValue::String(s) => XpcValue::String(s.clone()),
            XpcValue::Data(b) => XpcValue::Data(vstd::slice::slice_to_vec(b.as_slice())),
            XpcValue::Array(n) => XpcValue::Array(*n),
            XpcValue::Other => XpcValue::Other,
        }
    }
}

/// The content of a raw XPC object as libxpc hands it over: its type and its
/// entries, in any order.
#[derive(Debug)]
pub struct XpcObject {
    pub kind: XpcType,
    pub entries: Vec<(String, XpcValue)>,
}

/// The mathematical form of an XPC dictionary: its type and the map from
/// keys to values.
pub struct XpcDictView {
    pub kind: XpcType,
    pub entries: Map<Seq<char>, XpcValueView>,
}

/// Some entry of `entries` has the key `k`.
pub open spec fn has_key(entries: Seq<(String, XpcValue)>, k: Seq<char>) -> bool {
    exists|i: int| 0 <= i < entries.len() && #[trigger] entries[i].0@ == k
}

/// `entries` is the content of a dictionary: no key occurs twice, and no key
/// holds a NUL byte (keys are C strings).
pub open spec fn valid_entries(entries: Seq<(String, XpcValue)>) -> bool {
    &&& forall|i: int, j: int|
        0 <= i < entries.len() && 0 <= j < entries.len() && i != j ==> #[trigger] entries[i].0@
            != #[trigger] entries[j].0@
    &&& forall|i: int| 0 <= i < entries.len() ==> !has_nul(#[trigger] entries[i].0@)
}

/// The map that `entries` describes.
pub open spec fn entries_map(entries: Seq<(String, XpcValue)>) -> Map<Seq<char>, XpcValueView> {
    Map::new(
        |k: Seq<char>| has_key(entries, k),
        |k: Seq<char>| entries[choose|i: int| 0 <= i < entries.len() && entries[i].0@ == k].1@,
    )
}

impl View for XpcObject {
    type V = XpcDictView;

    open spec fn view(&self) -> XpcDictView {
        XpcDictView { kind: self.kind, entries: entries_map(self.entries@) }
    }
}

impl XpcDictView {
    /// The dictionary with `v` stored under `key`.
    pub open spec fn with_value(self, key: Seq<char>, v: XpcValueView) -> XpcDictView {
        XpcDictView { kind: self.kind, entries: self.entries.insert(key, v) }
    }

    /// What `get_raw_value` finds under `key`.
    pub open spec fn value_at(self, key: Seq<char>) -> Option<XpcValueView> {
        if self.entries.contains_key(key) {
            Some(self.entries[key])
        } else {
            None
        }
    }

    /// What `get_string` finds under `key`: a string value.
    pub open spec fn string_at(self, key: Seq<char>) -> Option<Seq<char>> {
        match self.value_at(key) {
            Some(XpcValueView::String(s)) => Some(s),
            _ => None,
        }
    }

    /// What `get_data` finds under `key`: a data value that is not empty.
    pub open spec fn data_at(self, key: Seq<char>) -> Option<Seq<u8>> {
        match self.value_at(key) {
            Some(XpcValueView::Data(b)) => if b.len() > 0 {
                Some(b)
            } else {
                None
            },
            _ => None,
        }
    }

    /// The object is the XPC error sentinel.
    pub open spec fn is_error(self) -> bool {
        self.kind is Error
    }
}

/// An owned XPC dictionary.
#[derive(Debug)]
pub struct XpcDict {
    ptr: XpcObject,
}

impl View for XpcDict {
    type V = XpcDictView;

    closed spec fn view(&self) -> XpcDictView {
        self.ptr@
    }
}

proof fn lemma_lookup(entries: Seq<(String, XpcValue)>, i: int)
    requires
        valid_entries(entries),
        0 <= i < entries.len(),
    ensures
        entries_map(entries).contains_key(entries[i].0@),
        entries_map(entries)[entries[i].0@] == entries[i].1@,
{
    let k = entries[i].0@;
    assert(has_key(entries, k));
    let j = choose|j: int| 0 <= j < entries.len() && entries[j].0@ == k;
    assert(j == i);
}

proof fn lemma_keys_valid(entries: Seq<(String, XpcValue)>)
    requires
        valid_entries(entries),
    ensures
        forall|k: Seq<char>| #[trigger] entries_map(entries).contains_key(k) ==> !has_nul(k),
{
    assert forall|k: Seq<char>| #[trigger] entries_map(entries).contains_key(k) implies !has_nul(k) by {
        let i = choose|i: int| 0 <= i < entries.len() && #[trigger] entries[i].0@ == k;
        assert(!has_nul(entries[i].0@));
    }
}

proof fn lemma_update(entries: Seq<(String, XpcValue)>, i: int, e: (String, XpcValue))
    requires
        valid_entries(entries),
        0 <= i < entries.len(),
        e.0@ == entries[i].0@,
    ensures
        valid_entries(entries.update(i, e)),
        entries_map(entries.update(i, e)) == entries_map(entries).insert(e.0@, e.1@),
{
    let new = entries.update(i, e);
    assert(valid_entries(new));
    lemma_lookup(new, i);
    assert forall|k: Seq<char>| #[trigger] entries_map(new).contains_key(k) <==> entries_map(
        entries,
    ).insert(e.0@, e.1@).contains_key(k) by {
        if has_key(new, k) {
            let j = choose|j: int| 0 <= j < new.len() && #[trigger] new[j].0@ == k;
            assert(entries[j].0@ == k);
        }
        if has_key(entries, k) {
            let j = choose|j: int| 0 <= j < entries.len() && #[trigger] entries[j].0@ == k;
            assert(new[j].0@ == k);
        }
    }
    assert forall|k: Seq<char>| #[trigger] entries_map(new).contains_key(k) implies entries_map(
        new,
    )[k] == entries_map(entries).insert(e.0@, e.1@)[k] by {
        if k != e.0@ {
            let j = choose|j: int| 0 <= j < new.len() && #[trigger] new[j].0@ == k;
            assert(j != i);
            lemma_lookup(new, j);
            lemma_lookup(entries, j);
        }
    }
    assert(entries_map(new) =~= entries_map(entries).insert(e.0@, e.1@));
}

proof fn lemma_push(entries: Seq<(String, XpcValue)>, e: (String, XpcValue))
    requires
        valid_entries(entries),
        !has_key(entries, e.0@),
        !has_nul(e.0@),
    ensures
        valid_entries(entries.push(e)),
        entries_map(entries.push(e)) == entries_map(entries).insert(e.0@, e.1@),
{
    let new = entries.push(e);
    assert forall|i: int, j: int|
        0 <= i < new.len() && 0 <= j < new.len() && i != j implies #[trigger] new[i].0@
        != #[trigger] new[j].0@ by {
        if i == entries.len() as int {
            assert(entries[j].0@ != e.0@);
        } else if j == entries.len() as int {
            assert(entries[i].0@ != e.0@);
        }
    }
    assert(valid_entries(new));
    lemma_lookup(new, entries.len() as int);
    assert forall|k: Seq<char>| #[trigger] entries_map(new).contains_key(k) <==> entries_map(
        entries,
    ).insert(e.0@, e.1@).contains_key(k) by {
        if has_key(new, k) {
            let j = choose|j: int| 0 <= j < new.len() && #[trigger] new[j].0@ == k;
            if j < entries.len() {
                assert(entries[j].0@ == k);
            }
        }
        if has_key(entries, k) {
            let j = choose|j: int| 0 <= j < entries.len() && #[trigger] entries[j].0@ == k;
            assert(new[j].0@ == k);
        }
    }
    assert forall|k: Seq<char>| #[trigger] entries_map(new).contains_key(k) implies entries_map(
        new,
    )[k] == entries_map(entries).insert(e.0@, e.1@)[k] by {
        if k != e.0@ {
            let j = choose|j: int| 0 <= j < new.len() && #[trigger] new[j].0@ == k;
            assert(j < entries.len());
            lemma_lookup(new, j);
            lemma_lookup(entries, j);
        }
    }
    assert(entries_map(new) =~= entries_map(entries).insert(e.0@, e.1@));
}

impl XpcDict {
    #[verifier::type_invariant]
    spec fn well_formed(self) -> bool {
        valid_entries(self.ptr.entries@)
    }

    /// Create a new, empty XPC dictionary.
    pub fn new() -> (r: XpcDict)
        ensures
            r@ == (XpcDictView { kind: XpcType::Dictionary, entries: Map::empty() }),
    {
        let r = XpcDict { ptr: XpcObject { kind: XpcType::Dictionary, entries: Vec::new() } };
        assert(entries_map(r.ptr.entries@) =~= Map::empty());
        r
    }

    /// Wrap the content of an XPC object handed over by libxpc: a dictionary
    /// has no key twice, and its keys are C strings.
    pub fn from_owned(ptr: XpcObject) -> (r: XpcDict)
        requires
            valid_entries(ptr.entries@),
        ensures
            r@ == ptr@,
            forall|i: int|
                0 <= i < ptr.entries@.len() ==> r@.value_at(#[trigger] ptr.entries@[i].0@) == Some(
                    ptr.entries@[i].1@,
                ),
    {
        proof {
            assert forall|i: int| 0 <= i < ptr.entries@.len() implies ptr@.value_at(
                #[trigger] ptr.entries@[i].0@,
            ) == Some(ptr.entries@[i].1@) by {
                lemma_lookup(ptr.entries@, i);
            }
        }
        XpcDict { ptr }
    }

    /// The content of the object, to hand to libxpc.
    pub fn as_ptr(&self) -> (r: &XpcObject)
        ensures
            r@ == self@,
    {
        &self.ptr
    }

    /// Store `value` under `key`, in place of what was there.
    fn insert_value(&mut self, key: &str, value: XpcValue)
        requires
            !has_nul(key@),
        ensures
            final(self)@ == old(self)@.with_value(key@, value@),
    {
        proof {
            use_type_invariant(&*self);
        }
        let found = self.find(key);
        let kind = self.ptr.kind;
        let mut entries: Vec<(String, XpcValue)> = Vec::new();
        std::mem::swap(&mut entries, &mut self.ptr.entries);
        let ghost old_entries = entries@;
        let entry = (key.to_owned(), value);
        match found {
            Some(i) => {
                proof {
                    lemma_update(old_entries, i as int, entry);
                }
                entries.set(i, entry);
            },
            None => {
                proof {
                    lemma_push(old_entries, entry);
                }
                entries.push(entry);
            },
        }
        self.ptr = XpcObject { kind, entries };
    }

    /// Store the string `value` under `key`.
    ///
    /// Both must be C strings: a NUL byte in either is a caller's error.
    pub fn set_string(&mut self, key: &str, value: &str)
        requires
            !has_nul(key@),
            !has_nul(value@),
        ensures
            final(self)@ == old(self)@.with_value(key@, XpcValueView::String(value@)),
    {
        self.insert_value(key, XpcValue::String(value.to_owned()));
    }

    /// Store a copy of `bytes` as data under `key`.
    ///
    /// The key must be a C string: a NUL byte in it is a caller's error.
    pub fn set_data(&mut self, key: &str, bytes: &[u8])
        requires
            !has_nul(key@),
        ensures
            final(self)@ == old(self)@.with_value(key@, XpcValueView::Data(bytes@)),
    {
        self.insert_value(key, XpcValue::Data(vstd::slice::slice_to_vec(bytes)));
    }

    /// A copy of the value stored under `key`, of whatever type.
    ///
    /// A key with a NUL byte names nothing.
    pub fn get_raw_value(&self, key: &str) -> (r: Option<XpcValue>)
        ensures
            r matches Some(v) ==> self@.value_at(key@) == Some(v@),
            r is None ==> self@.value_at(key@) is None,
            has_nul(key@) ==> r is None,
    {
        proof {
            use_type_invariant(self);
            lemma_keys_valid(self.ptr.entries@);
        }
        if contains_nul(key) {
            return None;
        }
        match self.find(key) {
            Some(i) => {
                proof {
                    lemma_lookup(self.ptr.entries@, i as int);
                }
                Some(self.ptr.entries[i].1.duplicate())
            },
            None => None,
        }
    }

    /// The string stored under `key`, if the value there is a string.
    pub fn get_string(&self, key: &str) -> (r: Option<String>)
        ensures
            r matches Some(s) ==> self@.string_at(key@) == Some(s@),
            r is None ==> self@.string_at(key@) is None,
            has_nul(key@) ==> r is None,
    {
        match self.get_raw_value(key) {
            Some(XpcValue::String(s)) => Some(s),
            _ => None,
        }
    }

    /// A copy of the bytes of the data value under `key`, if there is one
    /// and it is not empty.
    pub fn get_data(&self, key: &str) -> (r: Option<Vec<u8>>)
        ensures
            r matches Some(b) ==> self@.data_at(key@) == Some(b@),
            r is None ==> self@.data_at(key@) is None,
            has_nul(key@) ==> r is None,
    {
        match self.get_raw_value(key) {
            Some(XpcValue::Data(b)) => {
                if b.len() == 0 {
                    None
                } else {
                    Some(b)
                }
            },
            _ => None,
        }
    }

    /// Whether this object is the XPC error sentinel.
    pub(crate) fn is_error(&self) -> (r: bool)
        ensures
            r == self@.is_error(),
            r == (self@.kind is Error),
    {
        match self.ptr.kind {
            XpcType::Error => true,
            XpcType::Dictionary => false,
        }
    }

    /// The index of the entry with key `key`.
    fn find(&self, key: &str) -> (r: Option<usize>)
        ensures
            r matches Some(i) ==> i < self.ptr.entries@.len() && self.ptr.entries@[i as int].0@
                == key@,
            r is None ==> !has_key(self.ptr.entries@, key@),
    {
        let n = self.ptr.entries.len();
        let k = key.to_owned();
        let mut i: usize = 0;
        while i < n
            invariant
                n == self.ptr.entries@.len(),
                k@ == key@,
                i <= n,
                forall|j: int| 0 <= j < i ==> #[trigger] self.ptr.entries@[j].0@ != key@,
            decreases n - i,
        {
            if self.ptr.entries[i].0 == k {
                return Some(i);
            }
            i = i + 1;
        }
        None
    }
}

/// The message of the error that `Connection::open` gives for a service name
/// with a NUL byte, from the name as `{:?}` prints it.
pub open spec fn interior_nul_text(quoted: Seq<char>) -> Seq<char> {
    "service name contains interior NUL: "@ + quoted
}

/// The error for a service name that cannot be handed to libxpc, given the
/// name as `{:?}` prints it.
pub fn interior_nul_error(quoted: &str) -> (e: Error)
    ensures
        e.is_xpc_with(interior_nul_text(quoted@)),
{
    Error::Xpc(String::from_str("service name contains interior NUL: ").concat(quoted))
}

/// A connection to a named Mach service, as far as the client decides about
/// it: the name of the service. The transport holds the XPC handle.
#[derive(Debug)]
pub struct Connection {
    service: String,
}

impl Connection {
    /// The name of the service.
    pub closed spec fn service_name(self) -> Seq<char> {
        self.service@
    }

    /// Open a connection to the named Mach service: the name must be a C
    /// string, else the connection is refused with an XPC error.
    pub fn open(service: &str) -> (r: Result<Connection, Error>)
        ensures
            r is Ok <==> !has_nul(service@),
            r matches Ok(c) ==> c.service_name() == service@,
            r matches Err(e) ==> e.is_xpc_with(interior_nul_text(debug_quoted(service@))),
    {
        if contains_nul(service) {
            let quoted = debug_quote(service);
            Err(interior_nul_error(quoted.as_str()))
        } else {
            Ok(Connection { service: service.to_owned() })
        }
    }

    /// The name of the service, to hand to `xpc_connection_create_mach_service`.
    pub fn service(&self) -> (r: &str)
        ensures
            r@ == self.service_name(),
    {
        self.service.as_str()
    }

    /// What follows the creation of the XPC handle: a NULL handle is an XPC
    /// error, any other handle makes the connection usable.
    pub fn established(self, created: bool) -> (r: Result<Connection, Error>)
        ensures
            created ==> (r matches Ok(c) && c.service_name() == self.service_name()),
            !created ==> (r matches Err(e) && e.is_xpc_with(
                "xpc_connection_create_mach_service returned NULL"@,
            )),
    {
        if created {
            Ok(self)
        } else {
            Err(Error::Xpc(String::from_str("xpc_connection_create_mach_service returned NULL")))
        }
    }
}

/// The description that an XPC error object carries, or a fixed text when
/// it carries none.
pub open spec fn error_description(reply: XpcDictView) -> Seq<char> {
    match reply.string_at(ERROR_DESCRIPTION_KEY@) {
        Some(s) => s,
        None => "unknown XPC error"@,
    }
}

/// The JSON bytes of the application-level error in a reply, if any: the
/// data under `com.apple.container.xpc.error`.
pub fn reply_error_data(reply: &XpcDict) -> (r: Option<Vec<u8>>)
    ensures
        r matches Some(b) ==> reply@.data_at(ERROR_KEY@) == Some(b@),
        r is None ==> reply@.data_at(ERROR_KEY@) is None,
{
    reply.get_data(ERROR_KEY)
}

/// What a synchronous send comes to, from the reply that libxpc handed back
/// (`None` for a NULL reply) and the error payload decoded from the reply's
/// error data (`None` where there is no such data or it does not decode).
///
/// A NULL reply and an XPC error object are transport errors, which take
/// precedence over an application-level error; a reply with neither is
/// returned as it is.
pub fn check_reply(reply: Option<XpcDict>, api_error: Option<ApiErrorPayload>) -> (r: Result<
    XpcDict,
    Error,
>)
    ensures
        match reply {
            None => r matches Err(e) && e.is_xpc_with("received NULL reply"@),
            Some(d) => if d@.is_error() {
                r matches Err(e) && e.is_xpc_with(error_description(d@))
            } else {
                match api_error {
                    Some(p) => r matches Err(e) && e.is_api_with(p.code@, p.message@),
                    None => r matches Ok(o) && o@ == d@,
                }
            },
        },
        match reply {
            Some(d) => (d@.kind is Dictionary && api_error is None) ==> (r matches Ok(o) && o@
                == d@),
            None => true,
        },
        match reply {
            Some(d) => d@.kind is Error ==> (r matches Err(e) && e is Xpc),
            None => true,
        },
{
    match reply {
        None => Err(Error::Xpc(String::from_str("received NULL reply"))),
        Some(d) => {
            if d.is_error() {
                let desc = match d.get_string(ERROR_DESCRIPTION_KEY) {
                    Some(s) => s,
                    None => String::from_str("unknown XPC error"),
                };
                Err(Error::Xpc(desc))
            } else {
                match api_error {
                    Some(p) => Err(Error::Api { code: p.code, message: p.message }),
                    None => Ok(d),
                }
            }
        },
    }
}

/// The dictionary after storing each `(key, value)` of `stores` in turn.
pub open spec fn with_values(d: XpcDictView, stores: Seq<(Seq<char>, XpcValueView)>) -> XpcDictView
    decreases stores.len(),
{
    if stores.len() == 0 {
        d
    } else {
        with_values(d, stores.drop_last()).with_value(stores.last().0, stores.last().1)
    }
}

/// Stores under other keys, however many, leave the value under a key as it
/// was.
pub proof fn law_value_survives_other_stores(
    d: XpcDictView,
    key: Seq<char>,
    stores: Seq<(Seq<char>, XpcValueView)>,
)
    requires
        forall|i: int| 0 <= i < stores.len() ==> #[trigger] stores[i].0 != key,
    ensures
        with_values(d, stores).value_at(key) == d.value_at(key),
    decreases stores.len(),
{
    if stores.len() > 0 {
        let rest = stores.drop_last();
        assert forall|i: int| 0 <= i < rest.len() implies #[trigger] rest[i].0 != key by {
            assert(rest[i] == stores[i]);
        }
        law_value_survives_other_stores(d, key, rest);
        assert(stores.last() == stores[stores.len() - 1]);
    }
}

/// A string stored under a key is what `get_string` finds there, after any
/// stores under other keys.
pub proof fn law_string_read_back_after(
    d: XpcDictView,
    key: Seq<char>,
    value: Seq<char>,
    stores: Seq<(Seq<char>, XpcValueView)>,
)
    requires
        forall|i: int| 0 <= i < stores.len() ==> #[trigger] stores[i].0 != key,
    ensures
        with_values(d.with_value(key, XpcValueView::String(value)), stores).string_at(key) == Some(
            value,
        ),
{
    law_value_survives_other_stores(d.with_value(key, XpcValueView::String(value)), key, stores);
}

/// Data stored under a key is what `get_data` finds there, after any stores
/// under other keys, unless it is empty: empty data reads as absent.
pub proof fn law_data_read_back_after(
    d: XpcDictView,
    key: Seq<char>,
    bytes: Seq<u8>,
    stores: Seq<(Seq<char>, XpcValueView)>,
)
    requires
        forall|i: int| 0 <= i < stores.len() ==> #[trigger] stores[i].0 != key,
    ensures
        with_values(d.with_value(key, XpcValueView::Data(bytes)), stores).data_at(key) == (if bytes.len()
            > 0 {
            Some(bytes)
        } else {
            None
        }),
{
    law_value_survives_other_stores(d.with_value(key, XpcValueView::Data(bytes)), key, stores);
}

/// Whether a reply is a transport error depends on its XPC type alone: the
/// error sentinel is one, and a dictionary is not, whatever keys it holds.
pub proof fn law_transport_error_is_the_reply_type(d: XpcDictView)
    ensures
        d.is_error() <==> d.kind is Error,
        d.kind is Dictionary ==> !d.is_error(),
{
}

/// Storing values under any keys, however many, never turns a dictionary
/// into a transport error, nor an error into a dictionary.
pub proof fn law_keys_do_not_change_error_status(
    d: XpcDictView,
    stores: Seq<(Seq<char>, XpcValueView)>,
)
    ensures
        with_values(d, stores).is_error() == d.is_error(),
    decreases stores.len(),
{
    if stores.len() > 0 {
        law_keys_do_not_change_error_status(d, stores.drop_last());
    }
}

/// A string stored under a key is what `get_string` finds there afterwards.
pub proof fn law_string_read_back(d: XpcDictView, key: Seq<char>, value: Seq<char>)
    ensures
        d.with_value(key, XpcValueView::String(value)).string_at(key) == Some(value),
{
}

/// Data stored under a key is what `get_data` finds there afterwards, unless
/// it is empty: empty data reads as absent.
pub proof fn law_data_read_back(d: XpcDictView, key: Seq<char>, bytes: Seq<u8>)
    ensures
        d.with_value(key, XpcValueView::Data(bytes)).data_at(key) == (if bytes.len() > 0 {
            Some(bytes)
        } else {
            None
        }),
{
}

/// Storing under one key leaves every other key as it was.
pub proof fn law_other_keys_unchanged(
    d: XpcDictView,
    key: Seq<char>,
    other: Seq<char>,
    v: XpcValueView,
)
    requires
        key != other,
    ensures
        d.with_value(key, v).value_at(other) == d.value_at(other),
{
}

/// A second store under a key replaces the first.
pub proof fn law_last_store_wins(d: XpcDictView, key: Seq<char>, v1: XpcValueView, v2: XpcValueView)
    ensures
        d.with_value(key, v1).with_value(key, v2) == d.with_value(key, v2),
{
    assert(d.with_value(key, v1).with_value(key, v2).entries =~= d.with_value(key, v2).entries);
}

} // verus!
