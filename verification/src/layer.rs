//! The rules of the layer derives: which capabilities each layer gets,
//! which field holds the architecture slot, and which lifecycle hooks the
//! helper attribute names.
//!
//! The input is described with plain values: the shape of the struct, its
//! fields, and its attributes with their `key = value` entries. The hook
//! values are kept opaque (`E`), and so is the error of an attribute whose
//! arguments could not be parsed (`P`).
use vstd::prelude::*;

verus! {

/// One of the four layers.
#[derive(Clone, Copy, Debug, PartialEq, Eq, Structural)]
pub enum Layer {
    Controller,
    System,
    Model,
    Utility,
}

/// The name of the layer's trait.
pub open spec fn layer_trait_name_spec(layer: Layer) -> Seq<char> {
    match layer {
        Layer::Controller => "IController"@,
        Layer::System => "ISystem"@,
        Layer::Model => "IModel"@,
        Layer::Utility => "IUtility"@,
    }
}

/// The name of the helper attribute that carries the lifecycle hooks.
pub open spec fn helper_attribute_spec(layer: Layer) -> Seq<char> {
    match layer {
        Layer::Controller => "controller"@,
        Layer::System => "system"@,
        Layer::Model => "model"@,
        Layer::Utility => "utility"@,
    }
}

/// The capability traits of the layer, in the order they are implemented.
pub open spec fn capabilities_spec(layer: Layer) -> Seq<Seq<char>> {
    match layer {
        Layer::Controller => seq![
            "ICanGetModel"@,
            "ICanGetSystem"@,
            "ICanSendCommand"@,
            "ICanSendQuery"@,
            "ICanRegisterEvent"@,
        ],
        Layer::System => seq![
            "ICanGetModel"@,
            "ICanGetSystem"@,
            "ICanGetUtility"@,
            "ICanSendEvent"@,
            "ICanRegisterEvent"@,
        ],
        Layer::Model => seq!["ICanGetUtility"@, "ICanSendEvent"@],
        Layer::Utility => Seq::empty(),
    }
}

impl Layer {
    /// The name of the layer's trait, e.g. `IModel`.
    pub fn layer_trait_name(self) -> (r: &'static str)
        ensures
            r@ == layer_trait_name_spec(self),
            self == Layer::Controller ==> r@ == "IController"@,
            self == Layer::System ==> r@ == "ISystem"@,
            self == Layer::Model ==> r@ == "IModel"@,
            self == Layer::Utility ==> r@ == "IUtility"@,
    {
        match self {
            Layer::Controller => "IController",
            Layer::System => "ISystem",
            Layer::Model => "IModel",
            Layer::Utility => "IUtility",
        }
    }

    /// The helper attribute that carries the lifecycle hooks, e.g. `model`.
    pub fn helper_attribute(self) -> (r: &'static str)
        ensures
            r@ == helper_attribute_spec(self),
            self == Layer::Controller ==> r@ == "controller"@,
            self == Layer::System ==> r@ == "system"@,
            self == Layer::Model ==> r@ == "model"@,
            self == Layer::Utility ==> r@ == "utility"@,
    {
        match self {
            Layer::Controller => "controller",
            Layer::System => "system",
            Layer::Model => "model",
            Layer::Utility => "utility",
        }
    }

    /// The capability traits the layer implements.
    pub fn capabilities(self) -> (r: Vec<&'static str>)
        ensures
            r@.len() == capabilities_spec(self).len(),
            forall|i: int| 0 <= i < r@.len() ==> (#[trigger] r@[i])@ == capabilities_spec(self)[i],
    {
        match self {
            Layer::Controller => vec![
                "ICanGetModel",
                "ICanGetSystem",
                "ICanSendCommand",
                "ICanSendQuery",
                "ICanRegisterEvent",
            ],
            Layer::System => vec![
                "ICanGetModel",
                "ICanGetSystem",
                "ICanGetUtility",
                "ICanSendEvent",
                "ICanRegisterEvent",
            ],
            Layer::Model => vec!["ICanGetUtility", "ICanSendEvent"],
            Layer::Utility => Vec::new(),
        }
    }

    /// Whether objects of the layer hold an architecture slot: all but
    /// utilities.
    pub fn needs_arch(self) -> (r: bool)
        ensures
            r == (self != Layer::Utility),
    {
        match self {
            Layer::Utility => false,
            _ => true,
        }
    }
}

/// A field of a struct with named fields.
#[derive(Clone, Debug)]
pub struct FieldDesc {
    /// The field's name.
    pub name: String,
    /// Whether the field carries the `#[arch]` attribute.
    pub has_arch_attr: bool,
}

/// The shape of the type a derive is applied to.
#[derive(Clone, Debug)]
pub enum StructShape {
    /// An enum or a union.
    NotAStruct,
    /// A tuple struct or a unit struct.
    UnnamedFields,
    /// A struct with named fields.
    NamedFields(Vec<FieldDesc>),
}

/// One entry of a helper attribute's argument list.
#[derive(Clone, Debug)]
pub enum MetaEntry<E> {
    /// `key = value`; `key` is `None` when the path is not a single
    /// identifier.
    NameValue(Option<String>, E),
    /// A bare path or a list.
    Other,
}

/// An attribute of the type.
#[derive(Debug)]
pub struct AttrDesc<E, P> {
    /// The attribute's name when its path is a single identifier.
    pub path: Option<String>,
    /// Its argument entries, or why they could not be parsed.
    pub entries: Result<Vec<MetaEntry<E>>, P>,
}

/// The lifecycle hooks found in the helper attribute.
#[derive(Clone, Debug, PartialEq, Eq)]
pub struct Lifecycle<E> {
    /// The `init` hook, if given.
    pub init: Option<E>,
    /// The `deinit` hook, if given.
    pub deinit: Option<E>,
}

/// Why a derive cannot be expanded.
#[derive(Clone, Debug, PartialEq, Eq)]
pub enum ExpandError<P> {
    /// The derive was applied to something other than a struct.
    NotAStruct(Layer),
    /// The struct has no named fields.
    NoNamedFields(Layer),
    /// No field is marked `#[arch]` and none is named `arch`.
    MissingArchField(Layer),
    /// The arguments of a helper attribute could not be parsed.
    Parse(P),
    /// A helper attribute entry is not of the form `key = value`.
    UnsupportedEntry(Layer),
    /// A helper attribute entry has a key other than `init` and `deinit`.
    UnknownKey(Layer),
}

/// Field `i` is the first one satisfying `p`.
pub open spec fn is_first(fields: Seq<FieldDesc>, i: int, p: spec_fn(FieldDesc) -> bool) -> bool {
    &&& 0 <= i < fields.len()
    &&& p(fields[i])
    &&& forall|j: int| 0 <= j < i ==> !p(#[trigger] fields[j])
}

/// No field satisfies `p`.
pub open spec fn none_is(fields: Seq<FieldDesc>, p: spec_fn(FieldDesc) -> bool) -> bool {
    forall|j: int| 0 <= j < fields.len() ==> !p(#[trigger] fields[j])
}

/// The field carries `#[arch]`.
pub open spec fn marked() -> spec_fn(FieldDesc) -> bool {
    |f: FieldDesc| f.has_arch_attr
}

/// The field is named `arch`.
pub open spec fn named_arch() -> spec_fn(FieldDesc) -> bool {
    |f: FieldDesc| f.name@ == "arch"@
}

/// `name` is the field that holds the architecture slot: the first one
/// marked `#[arch]`, or, when none is marked, the first one named `arch`.
pub open spec fn arch_field_choice(fields: Seq<FieldDesc>, name: Seq<char>) -> bool {
    ||| exists|i: int| is_first(fields, i, marked()) && name == fields[i].name@
    ||| none_is(fields, marked()) && (exists|i: int| is_first(fields, i, named_arch())) && name == "arch"@
}

/// Whether `s` reads `lit`.
fn string_is(s: &String, lit: &str) -> (r: bool)
    ensures
        r == (s@ == lit@),
{
    let other: String = lit.to_owned();
    *s == other
}

/// The field that holds the architecture slot: the first field marked
/// `#[arch]`, else the first field named `arch`.
pub fn find_arch_field(shape: &StructShape, layer: Layer) -> (r: Result<String, ExpandError<()>>)
    ensures
        shape is NotAStruct ==> r == Err::<String, ExpandError<()>>(ExpandError::NotAStruct(layer)),
        shape is UnnamedFields ==> r == Err::<String, ExpandError<()>>(ExpandError::NoNamedFields(layer)),
        shape is NamedFields ==> match r {
            Ok(name) => arch_field_choice(shape->NamedFields_0@, name@),
            Err(e) => e == ExpandError::<()>::MissingArchField(layer)
                && none_is(shape->NamedFields_0@, marked()) && none_is(shape->NamedFields_0@, named_arch()),
        },
{
    match shape {
        StructShape::NotAStruct => Err(ExpandError::NotAStruct(layer)),
        StructShape::UnnamedFields => Err(ExpandError::NoNamedFields(layer)),
        StructShape::NamedFields(fields) => {
            let n = fields.len();
            let mut i: usize = 0;
            while i < n
                invariant
                    shape is NamedFields,
                    shape->NamedFields_0 == *fields,
                    n == fields@.len(),
                    i <= n,
                    forall|j: int| 0 <= j < i ==> !(#[trigger] fields@[j]).has_arch_attr,
                decreases n - i,
            {
                if fields[i].has_arch_attr {
                    let name = fields[i].name.clone();
                    assert(is_first(fields@, i as int, marked()) && name@ == fields@[i as int].name@);
                    assert(exists|k: int| is_first(fields@, k, marked()) && name@ == fields@[k].name@);
                    return Ok(name);
                }
                i += 1;
            }
            let mut i: usize = 0;
            while i < n
                invariant
                    shape is NamedFields,
                    shape->NamedFields_0 == *fields,
                    n == fields@.len(),
                    i <= n,
                    none_is(fields@, marked()),
                    forall|j: int| 0 <= j < i ==> (#[trigger] fields@[j]).name@ != "arch"@,
                decreases n - i,
            {
                if string_is(&fields[i].name, "arch") {
                    let name = fields[i].name.clone();
                    assert(is_first(fields@, i as int, named_arch()) && name@ == "arch"@);
                    assert(exists|k: int| is_first(fields@, k, named_arch()));
                    return Ok(name);
                }
                i += 1;
            }
            Err(ExpandError::MissingArchField(layer))
        },
    }
}

/// Lifecycle hooks that name no hook yet.
pub open spec fn no_hooks<E>() -> Lifecycle<E> {
    Lifecycle { init: None, deinit: None }
}

/// Applies the entries of one helper attribute, in order, to `acc`: a
/// later `init` or `deinit` overrides an earlier one; any other entry is
/// an error.
pub open spec fn apply_entries<E, P>(acc: Lifecycle<E>, entries: Seq<MetaEntry<E>>, layer: Layer) -> Result<Lifecycle<E>, ExpandError<P>>
    decreases entries.len(),
{
    if entries.len() == 0 {
        Ok(acc)
    } else {
        match entries[0] {
            MetaEntry::Other => Err(ExpandError::UnsupportedEntry(layer)),
            MetaEntry::NameValue(key, value) => if key is Some && key->0@ == "init"@ {
                apply_entries(Lifecycle { init: Some(value), deinit: acc.deinit }, entries.drop_first(), layer)
            } else if key is Some && key->0@ == "deinit"@ {
                apply_entries(Lifecycle { init: acc.init, deinit: Some(value) }, entries.drop_first(), layer)
            } else {
                Err(ExpandError::UnknownKey(layer))
            },
        }
    }
}

/// Whether `attr` is the layer's helper attribute.
pub open spec fn is_helper<E, P>(attr: AttrDesc<E, P>, layer: Layer) -> bool {
    attr.path is Some && attr.path->0@ == helper_attribute_spec(layer)
}

/// Applies the helper attributes among `attrs`, in order, to `acc`; other
/// attributes are skipped. The first error stops the work.
pub open spec fn apply_attrs<E, P>(acc: Lifecycle<E>, attrs: Seq<AttrDesc<E, P>>, layer: Layer) -> Result<Lifecycle<E>, ExpandError<P>>
    decreases attrs.len(),
{
    if attrs.len() == 0 {
        Ok(acc)
    } else if !is_helper(attrs[0], layer) {
        apply_attrs(acc, attrs.drop_first(), layer)
    } else {
        match attrs[0].entries {
            Err(p) => Err(ExpandError::Parse(p)),
            Ok(es) => match apply_entries::<E, P>(acc, es@, layer) {
                Ok(next) => apply_attrs(next, attrs.drop_first(), layer),
                Err(e) => Err(e),
            },
        }
    }
}

/// Applies the entries of one helper attribute to `acc`.
#[verifier::loop_isolation(false)]
fn apply_entries_exec<E, P>(acc: Lifecycle<E>, entries: Vec<MetaEntry<E>>, layer: Layer) -> (r: Result<Lifecycle<E>, ExpandError<P>>)
    ensures
        r == apply_entries::<E, P>(acc, entries@, layer),
{
    let ghost goal = apply_entries::<E, P>(acc, entries@, layer);
    let mut acc = acc;
    let mut rest = entries;
    while rest.len() > 0
        invariant
            apply_entries::<E, P>(acc, rest@, layer) == goal,
        decreases rest@.len(),
    {
        let ghost before = rest@;
        let entry = rest.remove(0);
        proof {
            assert(rest@ =~= before.drop_first());
        }
        match entry {
            MetaEntry::Other => {
                return Err(ExpandError::UnsupportedEntry(layer));
            },
            MetaEntry::NameValue(key, value) => {
                let (is_init, is_deinit) = match &key {
                    Some(k) => (string_is(k, "init"), string_is(k, "deinit")),
                    None => (false, false),
                };
                if is_init {
                    acc = Lifecycle { init: Some(value), deinit: acc.deinit };
                } else if is_deinit {
                    acc = Lifecycle { init: acc.init, deinit: Some(value) };
                } else {
                    return Err(ExpandError::UnknownKey(layer));
                }
            },
        }
    }
    Ok(acc)
}

/// The lifecycle hooks named by the layer's helper attributes, e.g.
/// `#[model(init = ..., deinit = ...)]`.
#[verifier::loop_isolation(false)]
pub fn parse_lifecycle<E, P>(attrs: Vec<AttrDesc<E, P>>, layer: Layer) -> (r: Result<Lifecycle<E>, ExpandError<P>>)
    ensures
        r == apply_attrs::<E, P>(no_hooks(), attrs@, layer),
{
    let helper = layer.helper_attribute();
    let ghost goal = apply_attrs::<E, P>(no_hooks(), attrs@, layer);
    let mut acc: Lifecycle<E> = Lifecycle { init: None, deinit: None };
    let mut rest = attrs;
    while rest.len() > 0
        invariant
            apply_attrs::<E, P>(acc, rest@, layer) == goal,
            helper@ == helper_attribute_spec(layer),
        decreases rest@.len(),
    {
        let ghost before = rest@;
        let attr = rest.remove(0);
        proof {
            assert(rest@ =~= before.drop_first());
        }
        let matches = match &attr.path {
            Some(p) => string_is(p, helper),
            None => false,
        };
        if matches {
            match attr.entries {
                Err(p) => {
                    return Err(ExpandError::Parse(p));
                },
                Ok(entries) => {
                    match apply_entries_exec::<E, P>(acc, entries, layer) {
                        Ok(next) => {
                            acc = next;
                        },
                        Err(e) => {
                            return Err(e);
                        },
                    }
                },
            }
        }
    }
    Ok(acc)
}

/// The trait that a layer's derive implements is that layer's own trait:
/// `ISystem` for systems, `IController` for controllers, `IModel` for
/// models and `IUtility` for utilities.
pub proof fn law_layer_trait_is_the_layers_own()
    ensures
        layer_trait_name_spec(Layer::System) == "ISystem"@,
        layer_trait_name_spec(Layer::Controller) == "IController"@,
        layer_trait_name_spec(Layer::Model) == "IModel"@,
        layer_trait_name_spec(Layer::Utility) == "IUtility"@,
{
}

/// The helper attribute of each layer is the layer's name in lower case:
/// `system`, `controller`, `model` and `utility`.
pub proof fn law_helper_attribute_is_the_lowercase_layer_name()
    ensures
        helper_attribute_spec(Layer::System) == "system"@,
        helper_attribute_spec(Layer::Controller) == "controller"@,
        helper_attribute_spec(Layer::Model) == "model"@,
        helper_attribute_spec(Layer::Utility) == "utility"@,
{
}

/// An attribute named after the layer in lower case, such as
/// `#[system(init = hook)]` on a system, names the layer's `init` hook:
/// reading it gives that hook and no `deinit` hook.
pub proof fn law_lowercase_layer_attribute_names_the_init_hook<E, P>(
    layer: Layer,
    path: String,
    key: String,
    hook: E,
    entries: Vec<MetaEntry<E>>,
)
    requires
        layer == Layer::System ==> path@ == "system"@,
        layer == Layer::Controller ==> path@ == "controller"@,
        layer == Layer::Model ==> path@ == "model"@,
        layer == Layer::Utility ==> path@ == "utility"@,
        key@ == "init"@,
        entries@ == seq![MetaEntry::NameValue(Some(key), hook)],
    ensures
        apply_attrs::<E, P>(no_hooks(), seq![AttrDesc { path: Some(path), entries: Ok(entries) }], layer)
            == Ok::<Lifecycle<E>, ExpandError<P>>(Lifecycle { init: Some(hook), deinit: None }),
{
    let attrs = seq![AttrDesc::<E, P> { path: Some(path), entries: Ok(entries) }];
    assert(is_helper(attrs[0], layer));
    reveal_with_fuel(apply_entries, 2);
    assert(entries@.drop_first() =~= Seq::<MetaEntry<E>>::empty());
    assert(apply_entries::<E, P>(no_hooks(), entries@, layer)
        == Ok::<Lifecycle<E>, ExpandError<P>>(Lifecycle { init: Some(hook), deinit: None }));
    assert(attrs.drop_first() =~= Seq::<AttrDesc<E, P>>::empty());
    reveal_with_fuel(apply_attrs, 2);
}

/// What the derive generates for a type, decided from its description.
#[derive(Debug)]
pub struct ExpansionPlan<E> {
    /// The layer trait to implement.
    pub layer_trait: &'static str,
    /// The field holding the architecture slot, for all but utilities.
    pub arch_field: Option<String>,
    /// The capability traits to implement.
    pub capabilities: Vec<&'static str>,
    /// Whether the layer impl needs a `Send + Sync + 'static` bound on the
    /// type, which is the case for generic types.
    pub needs_thread_bounds: bool,
    /// The lifecycle hooks to generate.
    pub lifecycle: Lifecycle<E>,
}

/// Decides what the derive of `layer` generates for a type of shape
/// `shape` with attributes `attrs`: the architecture field is looked up
/// first (for all but utilities), then the helper attributes are read.
pub fn plan_expansion<E, P>(shape: &StructShape, attrs: Vec<AttrDesc<E, P>>, has_generics: bool, layer: Layer) -> (r: Result<ExpansionPlan<E>, ExpandError<P>>)
    ensures
        match r {
            Ok(plan) => {
                &&& plan.layer_trait@ == layer_trait_name_spec(layer)
                &&& plan.capabilities@.len() == capabilities_spec(layer).len()
                &&& forall|i: int| 0 <= i < plan.capabilities@.len()
                    ==> (#[trigger] plan.capabilities@[i])@ == capabilities_spec(layer)[i]
                &&& plan.needs_thread_bounds == has_generics
                &&& apply_attrs::<E, P>(no_hooks(), attrs@, layer) == Ok::<Lifecycle<E>, ExpandError<P>>(plan.lifecycle)
                &&& (layer == Layer::Utility ==> plan.arch_field is None)
                &&& (layer != Layer::Utility ==> shape is NamedFields && plan.arch_field is Some
                    && arch_field_choice(shape->NamedFields_0@, plan.arch_field->0@))
            },
            Err(e) => {
                ||| layer != Layer::Utility && shape is NotAStruct && e == ExpandError::<P>::NotAStruct(layer)
                ||| layer != Layer::Utility && shape is UnnamedFields && e == ExpandError::<P>::NoNamedFields(layer)
                ||| layer != Layer::Utility && shape is NamedFields && e == ExpandError::<P>::MissingArchField(layer)
                    && none_is(shape->NamedFields_0@, marked()) && none_is(shape->NamedFields_0@, named_arch())
                ||| (layer == Layer::Utility || (shape is NamedFields
                    && !(none_is(shape->NamedFields_0@, marked()) && none_is(shape->NamedFields_0@, named_arch()))))
                    && apply_attrs::<E, P>(no_hooks(), attrs@, layer) == Err::<Lifecycle<E>, ExpandError<P>>(e)
            },
        },
{
    let arch_field = if layer.needs_arch() {
        match find_arch_field(shape, layer) {
            Ok(name) => Some(name),
            Err(e) => {
                let converted: ExpandError<P> = match e {
                    ExpandError::NotAStruct(l) => ExpandError::NotAStruct(l),
                    ExpandError::NoNamedFields(l) => ExpandError::NoNamedFields(l),
                    _ => ExpandError::MissingArchField(layer),
                };
                return Err(converted);
            },
        }
    } else {
        None
    };
    let lifecycle = match parse_lifecycle(attrs, layer) {
        Ok(l) => l,
        Err(e) => {
            return Err(e);
        },
    };
    Ok(ExpansionPlan {
        layer_trait: layer.layer_trait_name(),
        arch_field,
        capabilities: layer.capabilities(),
        needs_thread_bounds: has_generics,
        lifecycle,
    })
}

} // verus!
