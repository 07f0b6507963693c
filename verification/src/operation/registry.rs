//! The operation registry: operation names mapped to the kind of
//! operation they build, plus the asset parameters an operation reads from
//! files (a watermark's overlay image and font).
//!
//! The program turns a kind and its parameters into a running operation;
//! the registry decides which kind a name denotes and what a lookup of an
//! unknown name answers.

use vstd::prelude::*;

use crate::strings::{push_str, str_eq};

verus! {

/// A registry lookup or build failure.
#[derive(Debug, Clone, PartialEq, Eq)]
pub enum RegistryError {
    /// No operation is registered under the name.
    Unknown { name: String },
    /// The operation rejected its parameters.
    InvalidParams { op: &'static str, reason: String },
}

/// The human message of a registry error.
pub open spec fn spec_registry_error_message(e: RegistryError) -> Seq<char> {
    match e {
        RegistryError::Unknown { name } => "unknown operation '"@ + name@ + "'"@,
        RegistryError::InvalidParams { op, reason } => "invalid params for operation '"@ + op@
            + "': "@ + reason@,
    }
}

impl RegistryError {
    /// The human message.
    pub fn message(&self) -> (m: String)
        ensures
            m@ == spec_registry_error_message(*self),
    {
        let mut m = String::new();
        match self {
            RegistryError::Unknown { name } => {
                push_str(&mut m, "unknown operation '");
                push_str(&mut m, name.as_str());
                push_str(&mut m, "'");
            },
            RegistryError::InvalidParams { op, reason } => {
                push_str(&mut m, "invalid params for operation '");
                push_str(&mut m, op);
                push_str(&mut m, "': ");
                push_str(&mut m, reason.as_str());
            },
        }
        m
    }
}

/// The kinds of operation the registry knows how to build.
#[derive(Debug, Clone, Copy, PartialEq, Eq, Structural)]
pub enum OpKind {
    Identity,
    Invert,
    Resize,
    AutoOrient,
    Watermark,
}

/// One registration: a name, the kind it builds, and its asset keys.
#[derive(Debug, Clone, Copy)]
pub struct Registration {
    pub name: &'static str,
    pub kind: OpKind,
    pub asset_keys: &'static [&'static str],
}

/// The model of a registration.
pub struct RegistrationModel {
    pub name: Seq<char>,
    pub kind: OpKind,
    pub asset_keys: Seq<Seq<char>>,
}

/// The model of a list of asset keys.
pub open spec fn keys_view(k: Seq<&str>) -> Seq<Seq<char>> {
    Seq::new(k.len(), |i: int| k[i]@)
}

/// The model of a registration.
pub open spec fn registration_view(r: Registration) -> RegistrationModel {
    RegistrationModel { name: r.name@, kind: r.kind, asset_keys: keys_view(r.asset_keys@) }
}

/// The registrations, in order.
pub open spec fn registrations_view(v: Seq<Registration>) -> Seq<RegistrationModel> {
    Seq::new(v.len(), |i: int| registration_view(v[i]))
}

/// What `name` denotes in a registration history: its latest registration,
/// if any (a later registration of a name replaces an earlier one).
pub open spec fn spec_lookup(rs: Seq<RegistrationModel>, name: Seq<char>) -> Option<RegistrationModel>
    decreases rs.len(),
{
    if rs.len() == 0 {
        None
    } else if rs.last().name == name {
        Some(rs.last())
    } else {
        spec_lookup(rs.drop_last(), name)
    }
}

/// A registration replaces what its name denoted and leaves every other
/// name as it was.
pub proof fn law_register_replaces(rs: Seq<RegistrationModel>, e: RegistrationModel, n: Seq<char>)
    ensures
        spec_lookup(rs.push(e), n) == if n == e.name {
            Some(e)
        } else {
            spec_lookup(rs, n)
        },
{
    assert(rs.push(e).drop_last() =~= rs);
}

/// Maps operation names to the kind of operation they build.
pub struct OperationRegistry {
    entries: Vec<Registration>,
}

impl View for OperationRegistry {
    type V = Seq<RegistrationModel>;

    closed spec fn view(&self) -> Seq<RegistrationModel> {
        registrations_view(self.entries@)
    }
}

/// The asset keys of a watermark: its overlay image and its font.
pub open spec fn watermark_asset_keys() -> Seq<Seq<char>> {
    seq!["image"@, "font"@]
}

/// The built-in registrations: identity, invert, resize, auto-orient, and
/// watermark (with its asset keys).
pub open spec fn builtin_names() -> Seq<(Seq<char>, OpKind)> {
    seq![
        ("identity"@, OpKind::Identity),
        ("invert"@, OpKind::Invert),
        ("resize"@, OpKind::Resize),
        ("auto-orient"@, OpKind::AutoOrient),
        ("watermark"@, OpKind::Watermark),
    ]
}

proof fn lemma_builtin_lookup(v: Seq<RegistrationModel>)
    requires
        v.len() == 5,
        v[0] == (RegistrationModel { name: "identity"@, kind: OpKind::Identity, asset_keys: Seq::empty() }),
        v[1] == (RegistrationModel { name: "invert"@, kind: OpKind::Invert, asset_keys: Seq::empty() }),
        v[2] == (RegistrationModel { name: "resize"@, kind: OpKind::Resize, asset_keys: Seq::empty() }),
        v[3] == (RegistrationModel { name: "auto-orient"@, kind: OpKind::AutoOrient, asset_keys: Seq::empty() }),
        v[4] == (RegistrationModel { name: "watermark"@, kind: OpKind::Watermark, asset_keys: watermark_asset_keys() }),
    ensures
        forall|i: int| 0 <= i < 4 ==> #[trigger] spec_lookup(v, builtin_names()[i].0) == Some(
            RegistrationModel { name: builtin_names()[i].0, kind: builtin_names()[i].1, asset_keys: Seq::empty() },
        ),
        spec_lookup(v, "watermark"@) == Some(
            RegistrationModel { name: "watermark"@, kind: OpKind::Watermark, asset_keys: watermark_asset_keys() },
        ),
        forall|n: Seq<char>| #[trigger] spec_lookup(v, n) is Some ==> exists|i: int| 0 <= i < 5 && n == builtin_names()[i].0,
{
    reveal_strlit("identity");
    reveal_strlit("invert");
    reveal_strlit("resize");
    reveal_strlit("auto-orient");
    reveal_strlit("watermark");
    let names = seq!["identity"@, "invert"@, "resize"@, "auto-orient"@, "watermark"@];
    assert forall|i: int, j: int| 0 <= i < j < 5 implies #[trigger] names[i] != #[trigger] names[j] by {
        if names[i].len() == names[j].len() {
            assert(names[i][0] != names[j][0]);
        }
    }
    let v4 = v.drop_last();
    let v3 = v4.drop_last();
    let v2 = v3.drop_last();
    let v1 = v2.drop_last();
    let v0 = v1.drop_last();
    assert(v0 =~= Seq::<RegistrationModel>::empty());
    assert(v4.last() == v[3] && v3.last() == v[2] && v2.last() == v[1] && v1.last() == v[0]);
    assert forall|n: Seq<char>| #[trigger] spec_lookup(v, n) is Some implies exists|i: int|
        0 <= i < 5 && n == builtin_names()[i].0 by {
        if n != names[0] && n != names[1] && n != names[2] && n != names[3] && n != names[4] {
            assert(spec_lookup(v0, n) is None);
            assert(spec_lookup(v1, n) is None);
            assert(spec_lookup(v2, n) is None);
            assert(spec_lookup(v3, n) is None);
            assert(spec_lookup(v4, n) is None);
            assert(false);
        } else if n == names[0] {
            assert(n == builtin_names()[0].0);
        } else if n == names[1] {
            assert(n == builtin_names()[1].0);
        } else if n == names[2] {
            assert(n == builtin_names()[2].0);
        } else if n == names[3] {
            assert(n == builtin_names()[3].0);
        } else {
            assert(n == builtin_names()[4].0);
        }
    }
    assert(spec_lookup(v, names[0]) == Some(v[0])) by {
        assert(spec_lookup(v4, names[0]) == spec_lookup(v3, names[0]));
    }
    assert(spec_lookup(v, names[1]) == Some(v[1])) by {
        assert(spec_lookup(v2, names[1]) == Some(v[1]));
        assert(spec_lookup(v3, names[1]) == Some(v[1]));
        assert(spec_lookup(v4, names[1]) == Some(v[1]));
    }
    assert(spec_lookup(v, names[2]) == Some(v[2])) by {
        assert(spec_lookup(v3, names[2]) == Some(v[2]));
        assert(spec_lookup(v4, names[2]) == Some(v[2]));
    }
    assert(spec_lookup(v, names[3]) == Some(v[3])) by {
        assert(spec_lookup(v4, names[3]) == Some(v[3]));
    }
    assert(spec_lookup(v, names[4]) == Some(v[4]));
}

impl OperationRegistry {
    /// An empty registry.
    pub fn new() -> (r: OperationRegistry)
        ensures
            r@ == Seq::<RegistrationModel>::empty(),
    {
        let r = OperationRegistry { entries: Vec::new() };
        assert(r@ =~= Seq::<RegistrationModel>::empty());
        r
    }

    /// Register `name` as building `kind`, with no asset keys; a previous
    /// registration of the name is replaced.
    pub fn register(&mut self, name: &'static str, kind: OpKind)
        ensures
            final(self)@ == old(self)@.push(RegistrationModel { name: name@, kind, asset_keys: Seq::empty() }),
    {
        let empty: &'static [&'static str] = &[];
        self.entries.push(Registration { name, kind, asset_keys: empty });
        assert(keys_view(empty@) =~= Seq::<Seq<char>>::empty());
        assert(self@ =~= old(self)@.push(RegistrationModel { name: name@, kind, asset_keys: Seq::empty() }));
    }

    /// Register `name` as building `kind` whose parameters named
    /// `asset_keys` are file paths; a previous registration is replaced.
    pub fn register_with_assets(&mut self, name: &'static str, kind: OpKind, asset_keys: &'static [&'static str])
        ensures
            final(self)@ == old(self)@.push(RegistrationModel { name: name@, kind, asset_keys: keys_view(asset_keys@) }),
    {
        self.entries.push(Registration { name, kind, asset_keys });
        assert(self@ =~= old(self)@.push(RegistrationModel { name: name@, kind, asset_keys: keys_view(asset_keys@) }));
    }

    /// A registry with every built-in operation registered.
    pub fn with_builtins() -> (r: OperationRegistry)
        ensures
            forall|i: int| 0 <= i < 4 ==> #[trigger] spec_lookup(r@, builtin_names()[i].0) == Some(
                RegistrationModel { name: builtin_names()[i].0, kind: builtin_names()[i].1, asset_keys: Seq::empty() },
            ),
            spec_lookup(r@, "watermark"@) == Some(
                RegistrationModel { name: "watermark"@, kind: OpKind::Watermark, asset_keys: watermark_asset_keys() },
            ),
            forall|n: Seq<char>| #[trigger] spec_lookup(r@, n) is Some ==> exists|i: int| 0 <= i < 5 && n == builtin_names()[i].0,
    {
        proof {
            reveal_strlit("identity");
            reveal_strlit("invert");
            reveal_strlit("resize");
            reveal_strlit("auto-orient");
            reveal_strlit("watermark");
            reveal_strlit("image");
            reveal_strlit("font");
        }
        let mut r = OperationRegistry::new();
        r.register("identity", OpKind::Identity);
        r.register("invert", OpKind::Invert);
        r.register("resize", OpKind::Resize);
        r.register("auto-orient", OpKind::AutoOrient);
        let keys: &'static [&'static str] = &["image", "font"];
        assert(keys_view(keys@) =~= watermark_asset_keys());
        r.register_with_assets("watermark", OpKind::Watermark, keys);
        proof {
            lemma_builtin_lookup(r@);
        }
        r
    }

    fn find(&self, name: &str) -> (r: Option<usize>)
        ensures
            match r {
                Some(i) => i < self.entries@.len() && spec_lookup(self@, name@) == Some(self@[i as int]),
                None => spec_lookup(self@, name@) is None,
            },
    {
        let ghost v = self@;
        let mut j: usize = self.entries.len();
        assert(v.take(j as int) =~= v);
        while j > 0
            invariant
                j <= self.entries@.len(),
                v == self@,
                spec_lookup(v, name@) == spec_lookup(v.take(j as int), name@),
            decreases j,
        {
            let ghost t = v.take(j as int);
            assert(t.drop_last() =~= v.take(j - 1));
            assert(t.last() == v[j - 1]);
            if str_eq(self.entries[j - 1].name, name) {
                return Some(j - 1);
            }
            j = j - 1;
        }
        None
    }

    /// Whether `name` is registered.
    pub fn contains(&self, name: &str) -> (b: bool)
        ensures
            b == spec_lookup(self@, name@) is Some,
    {
        self.find(name).is_some()
    }

    /// The asset keys of `name`'s operation: none for an operation that
    /// reads no files, or for an unknown name.
    pub fn asset_keys(&self, name: &str) -> (k: &'static [&'static str])
        ensures
            keys_view(k@) == match spec_lookup(self@, name@) {
                Some(e) => e.asset_keys,
                None => Seq::<Seq<char>>::empty(),
            },
    {
        match self.find(name) {
            Some(i) => self.entries[i].asset_keys,
            None => {
                let empty: &'static [&'static str] = &[];
                assert(keys_view(empty@) =~= Seq::<Seq<char>>::empty());
                empty
            },
        }
    }

    /// The kind of operation `name` builds, or [`RegistryError::Unknown`]
    /// naming it.
    pub fn build(&self, name: &str) -> (r: Result<OpKind, RegistryError>)
        ensures
            match spec_lookup(self@, name@) {
                Some(e) => r == Ok::<OpKind, RegistryError>(e.kind),
                None => r matches Err(RegistryError::Unknown { name: n }) && n@ == name@,
            },
    {
        match self.find(name) {
            Some(i) => Ok(self.entries[i].kind),
            None => {
                let mut n = String::new();
                push_str(&mut n, name);
                Err(RegistryError::Unknown { name: n })
            },
        }
    }
}

} // verus!
