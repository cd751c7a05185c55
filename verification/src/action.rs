//! The unit of authorization: an [`ActionRequest`].
//!
//! Veridion authorizes *actions*. An agent that is about to do something
//! consequential — run a shell command, write a file, delegate to another
//! agent — describes that intent as an [`ActionRequest`] and asks the policy
//! engine whether it may proceed.
//!
//! The shape is attribute-based access control (ABAC): a `subject` performs an
//! `action` on a `resource` within a `context` of attributes that rules can
//! match against.

pub mod actions;

use vstd::prelude::*;

use crate::text::{chars_of, lex_le, lex_le_str, owned, str_eq};

verus! {

// ---------------------------------------------------------------------------
// Subject
// ---------------------------------------------------------------------------

/// Who is requesting an action.
#[derive(Debug, Clone, PartialEq, Eq)]
pub struct Subject {
    /// Stable identity of the actor (agent name, service, or user).
    pub id: String,
    /// The principal the actor operates on behalf of, when different from `id`.
    pub on_behalf_of: Option<String>,
    /// Roles or capabilities used for ABAC matching.
    pub roles: Vec<String>,
}

/// The mathematical model of a [`Subject`].
pub struct SubjectView {
    pub id: Seq<char>,
    pub on_behalf_of: Option<Seq<char>>,
    pub roles: Seq<Seq<char>>,
}

/// The characters of each string in a list.
pub open spec fn strings_view(v: Seq<String>) -> Seq<Seq<char>> {
    v.map_values(|s: String| s@)
}

/// The characters of an optional string.
pub open spec fn opt_view(o: Option<String>) -> Option<Seq<char>> {
    match o {
        Some(s) => Some(s@),
        None => None,
    }
}

impl View for Subject {
    type V = SubjectView;

    open spec fn view(&self) -> SubjectView {
        SubjectView {
            id: self.id@,
            on_behalf_of: opt_view(self.on_behalf_of),
            roles: strings_view(self.roles@),
        }
    }
}

impl Subject {
    /// A subject identified only by `id`, with no roles.
    pub fn new(id: &str) -> (r: Self)
        ensures
            r@ == (SubjectView { id: id@, on_behalf_of: None, roles: Seq::empty() }),
    {
        let r = Subject { id: owned(id), on_behalf_of: None, roles: Vec::new() };
        assert(strings_view(r.roles@) =~= Seq::empty());
        r
    }

    /// Attach a role, returning the updated subject.
    pub fn with_role(self, role: &str) -> (r: Self)
        ensures
            r@ == (SubjectView { roles: self@.roles.push(role@), ..self@ }),
    {
        let mut s = self;
        s.roles.push(owned(role));
        assert(strings_view(s.roles@) =~= strings_view(self.roles@).push(role@));
        s
    }

    /// Record the principal this actor is acting for.
    pub fn on_behalf_of(self, principal: &str) -> (r: Self)
        ensures
            r@ == (SubjectView { on_behalf_of: Some(principal@), ..self@ }),
    {
        let mut s = self;
        s.on_behalf_of = Some(owned(principal));
        s
    }

    /// Whether the subject holds the named role.
    pub fn has_role(&self, role: &str) -> (r: bool)
        ensures
            r == self@.roles.contains(role@),
    {
        let n = self.roles.len();
        let mut i: usize = 0;
        while i < n
            invariant
                n == self.roles@.len(),
                i <= n,
                forall|k: int| 0 <= k < i ==> self.roles@[k]@ != role@,
            decreases n - i,
        {
            if str_eq(self.roles[i].as_str(), role) {
                assert(self@.roles[i as int] == role@);
                return true;
            }
            i = i + 1;
        }
        assert forall|k: int| 0 <= k < self@.roles.len() implies self@.roles[k] != role@ by {
            assert(self@.roles[k] == self.roles@[k]@);
        }
        false
    }
}

impl Default for Subject {
    fn default() -> (r: Self)
        ensures
            r@ == (SubjectView { id: "unknown"@, on_behalf_of: None, roles: Seq::empty() }),
    {
        Self::new("unknown")
    }
}

// ---------------------------------------------------------------------------
// Attribute values
// ---------------------------------------------------------------------------

/// A typed context attribute value.
///
/// Attributes are the ABAC inputs a policy rule can match on — for example the
/// repository a command runs in, the model driving the agent, or whether the
/// session is interactive.
#[derive(Debug, Clone, PartialEq, Eq)]
pub enum AttributeValue {
    /// A text value.
    Text(String),
    /// A whole number.
    Integer(i64),
    /// A boolean flag.
    Bool(bool),
    /// A list of text values (e.g. tags, groups).
    List(Vec<String>),
}

/// The mathematical model of an [`AttributeValue`].
pub enum AttrValue {
    Text(Seq<char>),
    Integer(i64),
    Bool(bool),
    List(Seq<Seq<char>>),
}

impl View for AttributeValue {
    type V = AttrValue;

    open spec fn view(&self) -> AttrValue {
        match self {
            AttributeValue::Text(s) => AttrValue::Text(s@),
            AttributeValue::Integer(n) => AttrValue::Integer(*n),
            AttributeValue::Bool(b) => AttrValue::Bool(*b),
            AttributeValue::List(items) => AttrValue::List(strings_view(items@)),
        }
    }
}

/// Whether `needle` is present in a value: membership for lists, equality for
/// text, never for numbers and booleans.
pub open spec fn attr_contains(v: AttrValue, needle: Seq<char>) -> bool {
    match v {
        AttrValue::Text(s) => s == needle,
        AttrValue::List(items) => items.contains(needle),
        _ => false,
    }
}

/// A value that can become an [`AttributeValue`].
pub trait IntoAttribute: Sized {
    /// The attribute this value becomes.
    spec fn attribute_view(&self) -> AttrValue;

    /// Convert into an attribute.
    fn into_attribute(self) -> (r: AttributeValue)
        ensures
            r@ == self.attribute_view(),
    ;
}

impl<'a> IntoAttribute for &'a str {
    open spec fn attribute_view(&self) -> AttrValue {
        AttrValue::Text((*self)@)
    }

    fn into_attribute(self) -> (r: AttributeValue) {
        AttributeValue::Text(owned(self))
    }
}

impl IntoAttribute for String {
    open spec fn attribute_view(&self) -> AttrValue {
        AttrValue::Text(self@)
    }

    fn into_attribute(self) -> (r: AttributeValue) {
        AttributeValue::Text(self)
    }
}

impl IntoAttribute for i64 {
    open spec fn attribute_view(&self) -> AttrValue {
        AttrValue::Integer(*self)
    }

    fn into_attribute(self) -> (r: AttributeValue) {
        AttributeValue::Integer(self)
    }
}

impl IntoAttribute for bool {
    open spec fn attribute_view(&self) -> AttrValue {
        AttrValue::Bool(*self)
    }

    fn into_attribute(self) -> (r: AttributeValue) {
        AttributeValue::Bool(self)
    }
}

impl IntoAttribute for Vec<String> {
    open spec fn attribute_view(&self) -> AttrValue {
        AttrValue::List(strings_view(self@))
    }

    fn into_attribute(self) -> (r: AttributeValue) {
        AttributeValue::List(self)
    }
}

impl AttributeValue {
    /// A copy of this value.
    pub fn duplicate(&self) -> (r: Self)
        ensures
            r@ == self@,
    {
        match self {
            AttributeValue::Text(s) => AttributeValue::Text(s.clone()),
            AttributeValue::Integer(n) => AttributeValue::Integer(*n),
            AttributeValue::Bool(b) => AttributeValue::Bool(*b),
            AttributeValue::List(items) => {
                let mut out: Vec<String> = Vec::new();
                let n = items.len();
                let mut i: usize = 0;
                while i < n
                    invariant
                        n == items@.len(),
                        i <= n,
                        out@.len() == i,
                        forall|k: int| 0 <= k < i ==> out@[k]@ == items@[k]@,
                    decreases n - i,
                {
                    out.push(items[i].clone());
                    i = i + 1;
                }
                assert(strings_view(out@) =~= strings_view(items@));
                AttributeValue::List(out)
            },
        }
    }

    /// Build an attribute from any convertible value.
    pub fn from<V: IntoAttribute>(value: V) -> (r: Self)
        ensures
            r@ == value.attribute_view(),
    {
        value.into_attribute()
    }

    /// Borrow the value as text, if it is textual.
    pub fn as_text(&self) -> (r: Option<&str>)
        ensures
            match self@ {
                AttrValue::Text(s) => r is Some && r->0@ == s,
                _ => r is None,
            },
    {
        match self {
            AttributeValue::Text(s) => Some(s.as_str()),
            _ => None,
        }
    }

    /// Read the value as an integer, if it is numeric.
    pub fn as_integer(&self) -> (r: Option<i64>)
        ensures
            match self@ {
                AttrValue::Integer(n) => r == Some(n),
                _ => r is None,
            },
    {
        match self {
            AttributeValue::Integer(n) => Some(*n),
            _ => None,
        }
    }

    /// Read the value as a boolean, if it is boolean.
    pub fn as_bool(&self) -> (r: Option<bool>)
        ensures
            match self@ {
                AttrValue::Bool(b) => r == Some(b),
                _ => r is None,
            },
    {
        match self {
            AttributeValue::Bool(b) => Some(*b),
            _ => None,
        }
    }

    /// Whether `needle` is present in this value (membership for lists,
    /// equality for text).
    #[verifier::loop_isolation(false)]
    pub fn contains(&self, needle: &str) -> (r: bool)
        ensures
            r == attr_contains(self@, needle@),
    {
        match self {
            AttributeValue::Text(s) => str_eq(s.as_str(), needle),
            AttributeValue::List(items) => {
                let n = items.len();
                let mut i: usize = 0;
                while i < n
                    invariant
                        n == items@.len(),
                        i <= n,
                        forall|k: int| 0 <= k < i ==> items@[k]@ != needle@,
                    decreases n - i,
                {
                    if str_eq(items[i].as_str(), needle) {
                        assert(strings_view(items@)[i as int] == needle@);
                        assert(strings_view(items@).contains(needle@));
                        return true;
                    }
                    i = i + 1;
                }
                assert forall|k: int| 0 <= k < strings_view(items@).len() implies strings_view(
                    items@,
                )[k] != needle@ by {
                    assert(strings_view(items@)[k] == items@[k]@);
                }
                false
            },
            _ => false,
        }
    }
}

// ---------------------------------------------------------------------------
// Context
// ---------------------------------------------------------------------------

/// `a` sorts strictly before `b`.
pub open spec fn lex_lt(a: Seq<char>, b: Seq<char>) -> bool {
    lex_le(a, b) && a != b
}

/// Entries whose keys are strictly increasing (hence distinct).
pub open spec fn keys_increasing(s: Seq<(Seq<char>, AttrValue)>) -> bool {
    forall|i: int, j: int| 0 <= i < j < s.len() ==> lex_lt(#[trigger] s[i].0, #[trigger] s[j].0)
}

/// The map a list of entries describes (a later entry wins a repeated key).
pub open spec fn entries_map(s: Seq<(Seq<char>, AttrValue)>) -> Map<Seq<char>, AttrValue>
    decreases s.len(),
{
    if s.len() == 0 {
        Map::empty()
    } else {
        entries_map(s.drop_last()).insert(s.last().0, s.last().1)
    }
}

/// With distinct keys, the map holds exactly the listed entries.
pub proof fn lemma_entries_map(s: Seq<(Seq<char>, AttrValue)>)
    requires
        keys_increasing(s),
    ensures
        forall|i: int|
            0 <= i < s.len() ==> #[trigger] entries_map(s).contains_key(s[i].0) && entries_map(
                s,
            )[s[i].0] == s[i].1,
        forall|k: Seq<char>| #[trigger]
            entries_map(s).contains_key(k) ==> exists|i: int| 0 <= i < s.len() && s[i].0 == k,
    decreases s.len(),
{
    if s.len() > 0 {
        let t = s.drop_last();
        assert(keys_increasing(t)) by {
            assert forall|i: int, j: int| 0 <= i < j < t.len() implies lex_lt(
                #[trigger] t[i].0,
                #[trigger] t[j].0,
            ) by {
                assert(t[i] == s[i] && t[j] == s[j]);
            }
        }
        lemma_entries_map(t);
        assert forall|i: int| 0 <= i < s.len() implies #[trigger] entries_map(s).contains_key(
            s[i].0,
        ) && entries_map(s)[s[i].0] == s[i].1 by {
            if i < s.len() - 1 {
                assert(t[i] == s[i]);
                assert(entries_map(t).contains_key(t[i].0));
                assert(lex_lt(s[i].0, s[s.len() - 1].0));
            }
        }
        assert forall|k: Seq<char>| #[trigger]
            entries_map(s).contains_key(k) implies exists|i: int|
            0 <= i < s.len() && s[i].0 == k by {
            if k != s.last().0 {
                assert(entries_map(t).contains_key(k));
                let i = choose|i: int| 0 <= i < t.len() && t[i].0 == k;
                assert(s[i] == t[i]);
            } else {
                assert(s[s.len() - 1].0 == k);
            }
        }
    }
}

/// The attribute bag an action carries for ABAC evaluation. Attributes are
/// kept ordered by name, one value per name.
#[derive(Debug, PartialEq, Eq)]
pub struct Context {
    entries: Vec<(String, AttributeValue)>,
}

impl Context {
    /// The entries, in name order, as mathematical values.
    pub closed spec fn entries_view(&self) -> Seq<(Seq<char>, AttrValue)> {
        self.entries@.map_values(|e: (String, AttributeValue)| (e.0@, e.1@))
    }

    #[verifier::type_invariant]
    closed spec fn well_formed(&self) -> bool {
        keys_increasing(self.entries_view())
    }
}

impl View for Context {
    type V = Map<Seq<char>, AttrValue>;

    closed spec fn view(&self) -> Map<Seq<char>, AttrValue> {
        entries_map(self.entries_view())
    }
}

impl Context {
    /// An empty context.
    pub fn new() -> (r: Self)
        ensures
            r@ == Map::<Seq<char>, AttrValue>::empty(),
    {
        let r = Context { entries: Vec::new() };
        assert(r.entries_view() =~= Seq::empty());
        r
    }

    /// Set an attribute, returning the updated context.
    pub fn with<V: IntoAttribute>(self, key: &str, value: V) -> (r: Self)
        ensures
            r@ == self@.insert(key@, value.attribute_view()),
    {
        let ghost val = value.attribute_view();
        let v = value.into_attribute();
        self.insert_entry(key, v)
    }

    fn insert_entry(self, key: &str, value: AttributeValue) -> (r: Self)
        ensures
            r@ == self@.insert(key@, value@),
    {
        proof {
            use_type_invariant(&self);
        }
        let ghost old_s = self.entries_view();
        let mut entries = self.entries;
        let n = entries.len();
        let mut p: usize = 0;
        while p < n && !lex_le_str(key, entries[p].0.as_str())
            invariant
                n == entries@.len(),
                p <= n,
                old_s == entries@.map_values(|e: (String, AttributeValue)| (e.0@, e.1@)),
                forall|k: int| 0 <= k < p ==> !lex_le(key@, #[trigger] old_s[k].0),
            decreases n - p,
        {
            p = p + 1;
        }
        proof {
            assert forall|k: int| 0 <= k < p implies lex_lt(#[trigger] old_s[k].0, key@) by {
                crate::text::lemma_lex_total(key@, old_s[k].0);
            }
        }
        let replace = p < n && str_eq(entries[p].0.as_str(), key);
        assert(replace ==> old_s[p as int].0 == key@);
        let ghost new_entry = (key@, value@);
        if replace {
            entries.set(p, (owned(key), value));
        } else {
            entries.insert(p, (owned(key), value));
        }
        proof {
            let s = entries@.map_values(|e: (String, AttributeValue)| (e.0@, e.1@));
            if replace {
                assert(s =~= old_s.update(p as int, new_entry));
            } else {
                assert(s =~= old_s.insert(p as int, new_entry));
                assert forall|k: int| p <= k < old_s.len() implies lex_lt(key@, #[trigger] old_s[k].0) by {
                    if k == p {
                        assert(lex_le(key@, old_s[k].0));
                    } else {
                        assert(lex_lt(old_s[p as int].0, old_s[k].0));
                        assert(lex_le(key@, old_s[p as int].0));
                        crate::text::lemma_lex_transitive(key@, old_s[p as int].0, old_s[k].0);
                        if key@ == old_s[k].0 {
                            crate::text::lemma_lex_antisymmetric(key@, old_s[p as int].0);
                        }
                    }
                }
            }
            assert(keys_increasing(s)) by {
                assert forall|i: int, j: int| 0 <= i < j < s.len() implies lex_lt(
                    #[trigger] s[i].0,
                    #[trigger] s[j].0,
                ) by {
                    if !replace {
                        if j < p {
                            assert(s[i] == old_s[i] && s[j] == old_s[j]);
                            assert(lex_lt(old_s[i].0, old_s[j].0));
                        } else if j == p {
                            assert(s[i] == old_s[i] && s[j] == new_entry);
                            assert(lex_lt(old_s[i].0, key@));
                        } else if i == p {
                            assert(s[i] == new_entry && s[j] == old_s[j - 1]);
                            assert(lex_lt(key@, old_s[j - 1].0));
                        } else if i < p {
                            assert(s[i] == old_s[i] && s[j] == old_s[j - 1]);
                            assert(lex_lt(old_s[i].0, key@));
                            assert(lex_lt(key@, old_s[j - 1].0));
                            crate::text::lemma_lex_transitive(old_s[i].0, key@, old_s[j - 1].0);
                            if old_s[i].0 == old_s[j - 1].0 {
                                crate::text::lemma_lex_antisymmetric(key@, old_s[i].0);
                            }
                        } else {
                            assert(s[i] == old_s[i - 1] && s[j] == old_s[j - 1]);
                            assert(lex_lt(old_s[i - 1].0, old_s[j - 1].0));
                        }
                    } else {
                        assert(old_s[p as int].0 == key@);
                        assert(s[i].0 == old_s[i].0 && s[j].0 == old_s[j].0);
                        assert(lex_lt(old_s[i].0, old_s[j].0));
                    }
                }
            }
            lemma_entries_map(old_s);
            lemma_entries_map(s);
            assert(entries_map(s) =~= entries_map(old_s).insert(key@, value@)) by {
                assert forall|k: Seq<char>| #[trigger] entries_map(s).contains_key(k) implies entries_map(
                    old_s,
                ).insert(key@, value@).contains_key(k) by {
                    let i = choose|i: int| 0 <= i < s.len() && s[i].0 == k;
                    if k != key@ {
                        if !replace {
                            if i < p {
                                assert(old_s[i] == s[i]);
                            } else {
                                assert(old_s[i - 1] == s[i]);
                            }
                        } else {
                            assert(old_s[i] == s[i]);
                        }
                    }
                }
                assert forall|k: Seq<char>| #[trigger] entries_map(old_s).insert(
                    key@,
                    value@,
                ).contains_key(k) implies entries_map(s).contains_key(k) && entries_map(s)[k]
                    == entries_map(old_s).insert(key@, value@)[k] by {
                    if k == key@ {
                        assert(s[p as int] == new_entry);
                        assert(entries_map(s).contains_key(s[p as int].0));
                    } else {
                        let i = choose|i: int| 0 <= i < old_s.len() && old_s[i].0 == k;
                        assert(entries_map(old_s).contains_key(old_s[i].0));
                        if !replace {
                            if i < p {
                                assert(s[i] == old_s[i]);
                                assert(entries_map(s).contains_key(s[i].0));
                            } else {
                                assert(s[i + 1] == old_s[i]);
                                assert(entries_map(s).contains_key(s[i + 1].0));
                            }
                        } else {
                            assert(i != p);
                            assert(s[i] == old_s[i]);
                            assert(entries_map(s).contains_key(s[i].0));
                        }
                    }
                }
            }
        }
        Context { entries }
    }

    /// Look up an attribute by name.
    pub fn get(&self, key: &str) -> (r: Option<&AttributeValue>)
        ensures
            match r {
                Some(v) => self@.contains_key(key@) && v@ == self@[key@],
                None => !self@.contains_key(key@),
            },
    {
        proof {
            use_type_invariant(self);
            lemma_entries_map(self.entries_view());
        }
        let ghost s = self.entries_view();
        let n = self.entries.len();
        let mut i: usize = 0;
        while i < n
            invariant
                n == self.entries@.len(),
                i <= n,
                s == self.entries_view(),
                s.len() == n,
                forall|k: int| 0 <= k < i ==> s[k].0 != key@,
            decreases n - i,
        {
            assert(s[i as int] == (self.entries@[i as int].0@, self.entries@[i as int].1@));
            if str_eq(self.entries[i].0.as_str(), key) {
                proof {
                    use_type_invariant(self);
                    lemma_entries_map(s);
                    assert(entries_map(s).contains_key(s[i as int].0));
                }
                return Some(&self.entries[i].1);
            }
            i = i + 1;
        }
        None
    }
}

impl Clone for Context {
    fn clone(&self) -> (r: Self)
        ensures
            r@ == self@,
    {
        proof {
            use_type_invariant(self);
        }
        let ghost s = self.entries_view();
        let mut out: Vec<(String, AttributeValue)> = Vec::new();
        let n = self.entries.len();
        let mut i: usize = 0;
        while i < n
            invariant
                n == self.entries@.len(),
                s == self.entries_view(),
                i <= n,
                out@.len() == i,
                forall|k: int| 0 <= k < i ==> (#[trigger] out@[k]).0@ == s[k].0 && out@[k].1@ == s[k].1,
            decreases n - i,
        {
            let key = self.entries[i].0.clone();
            let val = self.entries[i].1.duplicate();
            out.push((key, val));
            i = i + 1;
        }
        proof {
            assert(out@.map_values(|e: (String, AttributeValue)| (e.0@, e.1@)) =~= s);
        }
        Context { entries: out }
    }
}

impl Default for Context {
    fn default() -> (r: Self)
        ensures
            r@ == Map::<Seq<char>, AttrValue>::empty(),
    {
        Self::new()
    }
}

// ---------------------------------------------------------------------------
// ActionRequest
// ---------------------------------------------------------------------------

/// A request to perform a single action, pending authorization.
#[derive(Debug, Clone, PartialEq, Eq)]
pub struct ActionRequest {
    /// The action verb (see [`actions`] for well-known values).
    pub action: String,
    /// The target of the action: a command, path, agent name, URL, etc.
    pub resource: String,
    /// Who is asking.
    pub subject: Subject,
    /// Attributes describing the surrounding situation.
    pub context: Context,
}

/// The mathematical model of an [`ActionRequest`].
pub struct RequestView {
    pub action: Seq<char>,
    pub resource: Seq<char>,
    pub subject: SubjectView,
    pub context: Map<Seq<char>, AttrValue>,
}

impl View for ActionRequest {
    type V = RequestView;

    open spec fn view(&self) -> RequestView {
        RequestView {
            action: self.action@,
            resource: self.resource@,
            subject: self.subject@,
            context: self.context@,
        }
    }
}

impl ActionRequest {
    /// Create a request for `action` on `resource` with the default subject
    /// (`unknown`, no roles) and an empty context.
    pub fn new(action: &str, resource: &str) -> (r: Self)
        ensures
            r@ == (RequestView {
                action: action@,
                resource: resource@,
                subject: SubjectView { id: "unknown"@, on_behalf_of: None, roles: Seq::empty() },
                context: Map::empty(),
            }),
    {
        ActionRequest {
            action: owned(action),
            resource: owned(resource),
            subject: Subject::default(),
            context: Context::new(),
        }
    }

    /// Set the subject.
    pub fn subject(self, subject: Subject) -> (r: Self)
        ensures
            r@ == (RequestView { subject: subject@, ..self@ }),
    {
        let mut r = self;
        r.subject = subject;
        r
    }

    /// Add a context attribute.
    pub fn attr<V: IntoAttribute>(self, key: &str, value: V) -> (r: Self)
        ensures
            r@ == (RequestView { context: self@.context.insert(key@, value.attribute_view()), ..self@ }),
    {
        let mut r = self;
        let c = r.context;
        r.context = c.with(key, value);
        r
    }
}

} // verus!
