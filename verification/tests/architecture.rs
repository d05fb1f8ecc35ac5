use std::any::{Any, TypeId};
use std::marker::PhantomData;
use std::sync::atomic::{AtomicI32, Ordering};
use std::sync::{Arc, Mutex, OnceLock};

use qframework::layer::{find_arch_field, FieldDesc, StructShape};
use qframework::{
    ArchRef, Architecture, ArchitectureBuilder, HasArchRef, BindableProperty, TypeEventSystem, CommandContext, ICanGetModel,
    ICanGetSystem, ICanGetUtility, ICanRegisterEvent, ICanSendCommand, ICanSendEvent,
    ICanSendQuery, ICommand, IController, IEventHandler, ILifecycle, IModel, IPatch, IQuery,
    ISystem, IUnRegisterList, IUtility, Layer, NoPatch, QueryContext,
};

// ---------------------------------------------------------------------------
// How the tests store layer objects and subscribers
// ---------------------------------------------------------------------------

trait Object: ILifecycle<HookReceipt = ()> + Any + Send + Sync {
    fn as_any(&self) -> &dyn Any;
}

type AnyEvent = dyn Any + Send + Sync;

struct Handler(Box<dyn Fn(&AnyEvent) + Send + Sync>);

impl IEventHandler<AnyEvent> for Handler {
    type Receipt = ();

    fn receipt(&self, _event: &AnyEvent) {}

    fn handle(&self, event: &AnyEvent) {
        (self.0)(event)
    }
}

fn on<E: Any>(f: impl Fn(&E) + Send + Sync + 'static) -> Handler {
    Handler(Box::new(move |event| {
        if let Some(event) = event.downcast_ref::<E>() {
            f(event)
        }
    }))
}

struct Sink<T: ?Sized>(Box<dyn Fn(&T) + Send + Sync>);

impl<T: ?Sized> IEventHandler<T> for Sink<T> {
    type Receipt = ();

    fn receipt(&self, _event: &T) {}

    fn handle(&self, event: &T) {
        (self.0)(event)
    }
}

type Arch = Architecture<dyn Object, Handler>;
type Builder<P> = ArchitectureBuilder<dyn Object, P>;

fn key<T: 'static>() -> TypeId {
    TypeId::of::<T>()
}

fn obj<T: Object>(value: T) -> Arc<dyn Object> {
    Arc::new(value)
}

fn downcast<M: 'static>(object: &Arc<dyn Object>) -> &M {
    object.as_any().downcast_ref::<M>().unwrap()
}

// ---------------------------------------------------------------------------
// Layer objects, commands and queries
// ---------------------------------------------------------------------------

struct CounterModel {
    count: Mutex<BindableProperty<i32, Sink<i32>>>,
}

impl Default for CounterModel {
    fn default() -> Self {
        CounterModel { count: Mutex::new(BindableProperty::new(0)) }
    }
}

impl ILifecycle for CounterModel {
    type HookReceipt = ();
    fn init_receipt(&self) {}
    fn deinit_receipt(&self) {}
    fn init(&self) {}
    fn deinit(&self) {}
}
impl ICanGetUtility for CounterModel {}
impl ICanSendEvent for CounterModel {}
impl IModel for CounterModel {}
impl Object for CounterModel {
    fn as_any(&self) -> &dyn Any {
        self
    }
}

#[derive(Debug, Clone, Copy, PartialEq, Eq)]
struct CountChangedEvent {
    count: i32,
}

struct IncreaseCommand;

impl ICommand<dyn Object, Handler> for IncreaseCommand {
    type Output = ();
    fn execute(&self, ctx: &CommandContext<'_, dyn Object, Handler>) {
        let model = ctx.get_model(ctx.arch(), key::<CounterModel>());
        let count = {
            let mut property = downcast::<CounterModel>(&model).count.lock().unwrap();
            property.modify(|count| *count + 1);
            property.get()
        };
        let event = CountChangedEvent { count };
        ctx.send_event(ctx.arch(), key::<CountChangedEvent>(), &event as &AnyEvent);
    }
}

struct GetCountQuery;

impl IQuery<dyn Object, Handler> for GetCountQuery {
    type Result = i32;
    fn do_query(&self, ctx: &QueryContext<'_, dyn Object, Handler>) -> i32 {
        let model = ctx.get_model(ctx.arch(), key::<CounterModel>());
        let value = downcast::<CounterModel>(&model).count.lock().unwrap().get();
        value
    }
}

#[derive(Default)]
struct CounterSystem;

impl ILifecycle for CounterSystem {
    type HookReceipt = ();
    fn init_receipt(&self) {}
    fn deinit_receipt(&self) {}
    fn init(&self) {}
    fn deinit(&self) {}
}
impl ICanGetModel for CounterSystem {}
impl ICanGetSystem for CounterSystem {}
impl ICanGetUtility for CounterSystem {}
impl ICanSendEvent for CounterSystem {}
impl ICanRegisterEvent for CounterSystem {}
impl ISystem for CounterSystem {}
impl Object for CounterSystem {
    fn as_any(&self) -> &dyn Any {
        self
    }
}

fn counter_app() -> Builder<NoPatch> {
    Builder::new("Test").model(key::<CounterModel>(), obj(CounterModel::default()))
}

#[test]
fn command_changes_model_state() {
    let architecture: Arch = counter_app().build();

    architecture.send_command(IncreaseCommand);
    architecture.send_command(IncreaseCommand);

    assert_eq!(architecture.send_query(GetCountQuery), 2);
}

#[test]
fn events_reach_subscribers() {
    let mut architecture: Arch = counter_app().build();

    let received = Arc::new(AtomicI32::new(0));
    let sink = Arc::clone(&received);
    let unregister = architecture.register_event(
        key::<CountChangedEvent>(),
        on(move |event: &CountChangedEvent| sink.store(event.count, Ordering::SeqCst)),
    );

    architecture.send_command(IncreaseCommand);
    assert_eq!(received.load(Ordering::SeqCst), 1);

    architecture.send_command(IncreaseCommand);
    assert_eq!(received.load(Ordering::SeqCst), 2);

    unregister.unregister(&mut architecture);
    architecture.send_command(IncreaseCommand);
    assert_eq!(received.load(Ordering::SeqCst), 2);
}

#[test]
fn models_initialize_before_systems() {
    let architecture: Arch = counter_app()
        .system(key::<CounterSystem>(), obj(CounterSystem))
        .build();

    assert!(architecture.is_inited());
    assert!(architecture.try_get_model(key::<CounterModel>()).is_some());
    assert!(architecture.try_get_system(key::<CounterSystem>()).is_some());
}

#[test]
fn bindable_property_notifies_and_can_be_silent() {
    let mut property: BindableProperty<i32, Sink<i32>> = BindableProperty::new(0);
    let observed = Arc::new(AtomicI32::new(-1));

    let sink = Arc::clone(&observed);
    let unregister = property.register(Sink(Box::new(move |value: &i32| {
        sink.store(*value, Ordering::SeqCst);
    })));

    property.set(7);
    assert_eq!(observed.load(Ordering::SeqCst), 7);
    assert_eq!(property.get(), 7);

    property.set_value_without_event(42);
    assert_eq!(property.get(), 42);
    assert_eq!(observed.load(Ordering::SeqCst), 7);

    unregister.unregister(&mut property);
    property.set(9);
    assert_eq!(observed.load(Ordering::SeqCst), 7);
}

#[test]
fn deinit_clears_container_and_events() {
    let mut architecture: Arch = counter_app().build();

    assert!(architecture.try_get_model(key::<CounterModel>()).is_some());
    architecture.deinit();
    assert!(architecture.try_get_model(key::<CounterModel>()).is_none());
    assert!(!architecture.is_inited());
}

// ---------------------------------------------------------------------------
// Lifecycle hooks and layer declarations
// ---------------------------------------------------------------------------

#[derive(Default)]
struct HookedModel {
    inits: AtomicI32,
    deinits: AtomicI32,
}

impl ILifecycle for HookedModel {
    type HookReceipt = ();
    fn init_receipt(&self) {}
    fn deinit_receipt(&self) {}
    fn init(&self) {
        self.inits.fetch_add(1, Ordering::SeqCst);
    }

    fn deinit(&self) {
        self.deinits.fetch_add(1, Ordering::SeqCst);
    }
}
impl ICanGetUtility for HookedModel {}
impl ICanSendEvent for HookedModel {}
impl IModel for HookedModel {}
impl Object for HookedModel {
    fn as_any(&self) -> &dyn Any {
        self
    }
}

#[test]
fn derive_supports_lifecycle_hooks() {
    let mut architecture: Arch = Builder::<NoPatch>::new("Test")
        .model(key::<HookedModel>(), obj(HookedModel::default()))
        .build();

    let model = architecture.get_model(key::<HookedModel>());
    assert_eq!(downcast::<HookedModel>(&model).inits.load(Ordering::SeqCst), 1);
    assert_eq!(downcast::<HookedModel>(&model).deinits.load(Ordering::SeqCst), 0);

    architecture.deinit();
    assert_eq!(downcast::<HookedModel>(&model).deinits.load(Ordering::SeqCst), 1);
}

#[derive(Default)]
struct HookedUtility {
    ready: AtomicI32,
}

impl ILifecycle for HookedUtility {
    type HookReceipt = ();
    fn init_receipt(&self) {}
    fn deinit_receipt(&self) {}
    fn init(&self) {}
    fn deinit(&self) {}
}
impl IUtility for HookedUtility {}
impl Object for HookedUtility {
    fn as_any(&self) -> &dyn Any {
        self
    }
}

#[test]
fn utility_derive_does_not_require_arch_field() {
    let architecture: Arch = Builder::<NoPatch>::new("Test")
        .utility(key::<HookedUtility>(), obj(HookedUtility::default()))
        .build();

    assert!(architecture.try_get_utility(key::<HookedUtility>()).is_some());
    let utility = architecture.get_utility(key::<HookedUtility>());
    assert_eq!(downcast::<HookedUtility>(&utility).ready.load(Ordering::SeqCst), 0);
    assert!(!Layer::Utility.needs_arch());
}

#[test]
fn arch_field_can_be_renamed_with_attribute() {
    let shape = StructShape::NamedFields(vec![FieldDesc {
        name: "context".to_string(),
        has_arch_attr: true,
    }]);
    assert_eq!(find_arch_field(&shape, Layer::System), Ok("context".to_string()));

    let architecture: Arch = Builder::<NoPatch>::new("Test")
        .system(key::<CounterSystem>(), obj(CounterSystem))
        .build();
    assert!(architecture.try_get_system(key::<CounterSystem>()).is_some());
    assert_eq!(architecture.name(), "Test");
}

#[derive(Default)]
struct UnusedController {
    arch: ArchRef<&'static str>,
}

impl HasArchRef<&'static str> for UnusedController {
    fn arch_slot(&self) -> ArchRef<&'static str> {
        self.arch.clone()
    }

    fn arch_ref(&self) -> &ArchRef<&'static str> {
        &self.arch
    }

    fn bind_arch(&mut self, handle: &'static str) {
        self.arch.set(handle)
    }
}

impl ILifecycle for UnusedController {
    type HookReceipt = ();
    fn init_receipt(&self) {}
    fn deinit_receipt(&self) {}
    fn init(&self) {}
    fn deinit(&self) {}
}
impl ICanGetModel for UnusedController {}
impl ICanGetSystem for UnusedController {}
impl ICanSendCommand for UnusedController {}
impl ICanSendQuery for UnusedController {}
impl ICanRegisterEvent for UnusedController {}
impl IController for UnusedController {}

#[test]
fn controller_derive_generates_capability_impls() {
    let mut architecture: Arch = counter_app().build();

    let controller = architecture.attach_controller(UnusedController::default(), "Test");
    assert_eq!(*controller.arch_ref().get(), "Test");
    assert_eq!(architecture.registered_count(), 1);
    controller.send_command(&architecture, IncreaseCommand);
    let unregister = controller.register_event(
        &mut architecture,
        key::<CountChangedEvent>(),
        on(|_: &CountChangedEvent| {}),
    );

    assert_eq!(architecture.send_query(GetCountQuery), 1);
    unregister.unregister(&mut architecture);
}

struct GenericModel<T>
where
    T: Send + Sync + 'static,
{
    payload: PhantomData<T>,
}

impl<T: Send + Sync + 'static> ILifecycle for GenericModel<T> {
    type HookReceipt = ();
    fn init_receipt(&self) {}
    fn deinit_receipt(&self) {}
    fn init(&self) {}
    fn deinit(&self) {}
}
impl<T: Send + Sync + 'static> Object for GenericModel<T> {
    fn as_any(&self) -> &dyn Any {
        self
    }
}

#[test]
fn derive_supports_generic_structs() {
    let architecture: Arch = Builder::<NoPatch>::new("Test")
        .model(key::<GenericModel<u32>>(), obj(GenericModel::<u32> { payload: PhantomData }))
        .build();

    assert!(architecture.try_get_model(key::<GenericModel<u32>>()).is_some());
}

// ---------------------------------------------------------------------------
// Architecture API
// ---------------------------------------------------------------------------

#[test]
fn registered_count_reflects_registrations() {
    let architecture: Arch = counter_app()
        .system(key::<CounterSystem>(), obj(CounterSystem))
        .build();

    assert_eq!(architecture.registered_count(), 2);
}

struct RegisterSystemPatch;

impl IPatch<dyn Object, Handler> for RegisterSystemPatch {
    fn apply(&self, architecture: &mut Arch) {
        assert!(!architecture.is_inited());
        assert!(architecture.try_get_model(key::<CounterModel>()).is_some());
        let _ = architecture.register_system(key::<CounterSystem>(), obj(CounterSystem));
    }
}

#[test]
fn builder_patch_runs_after_registrations_and_before_init() {
    let architecture: Arch = Builder::new("Test")
        .model(key::<CounterModel>(), obj(CounterModel::default()))
        .patch(RegisterSystemPatch)
        .build();

    assert!(architecture.is_inited());
    assert!(architecture.try_get_system(key::<CounterSystem>()).is_some());
    assert_eq!(architecture.registered_count(), 2);
}

#[derive(Debug, Default, Clone, Copy)]
struct DefaultEvent(i32);

#[test]
fn send_event_default_uses_default_value() {
    let mut architecture: Architecture<dyn Object, Sink<DefaultEvent>> =
        ArchitectureBuilder::<dyn Object, NoPatch>::new("Test").build();

    let received = Arc::new(AtomicI32::new(-1));
    let sink = Arc::clone(&received);
    let _unregister = architecture.register_event(
        key::<DefaultEvent>(),
        Sink(Box::new(move |event: &DefaultEvent| sink.store(event.0, Ordering::SeqCst))),
    );

    architecture.send_event_default::<DefaultEvent>(key::<DefaultEvent>());
    assert_eq!(received.load(Ordering::SeqCst), 0);
}

#[test]
fn unregister_list_auto_unregisters_on_drop() {
    let mut architecture: Arch = Builder::<NoPatch>::new("Test").build();

    let mut subscriptions = IUnRegisterList::new();
    subscriptions.add(architecture.register_event(key::<CountChangedEvent>(), on(|_: &CountChangedEvent| {})));
    subscriptions.add(architecture.register_event(key::<CountChangedEvent>(), on(|_: &CountChangedEvent| {})));

    assert_eq!(subscriptions.len(), 2);
    assert!(architecture.events().has_listener(key::<CountChangedEvent>()));

    subscriptions.unregister_all(&mut architecture);

    assert!(!architecture.events().has_listener(key::<CountChangedEvent>()));
}

// ---------------------------------------------------------------------------
// Lifecycle order and registration rules
// ---------------------------------------------------------------------------

struct Logged {
    name: &'static str,
    log: Arc<Mutex<Vec<String>>>,
}

impl ILifecycle for Logged {
    type HookReceipt = ();
    fn init_receipt(&self) {}
    fn deinit_receipt(&self) {}
    fn init(&self) {
        self.log.lock().unwrap().push(format!("init {}", self.name));
    }

    fn deinit(&self) {
        self.log.lock().unwrap().push(format!("deinit {}", self.name));
    }
}
impl Object for Logged {
    fn as_any(&self) -> &dyn Any {
        self
    }
}

struct K<const N: usize>;

fn logged(name: &'static str, log: &Arc<Mutex<Vec<String>>>) -> Arc<dyn Object> {
    obj(Logged { name, log: Arc::clone(log) })
}

#[test]
fn lifecycle_runs_models_first_and_tears_systems_down_first() {
    let log = Arc::new(Mutex::new(Vec::new()));
    let mut architecture: Arch = Builder::<NoPatch>::new("Order")
        .model(key::<K<1>>(), logged("m1", &log))
        .system(key::<K<2>>(), logged("s1", &log))
        .model(key::<K<3>>(), logged("m2", &log))
        .utility(key::<K<4>>(), logged("u1", &log))
        .build();

    assert_eq!(*log.lock().unwrap(), vec!["init m1", "init m2", "init s1", "init u1"]);

    architecture.deinit();
    assert_eq!(
        *log.lock().unwrap(),
        vec!["init m1", "init m2", "init s1", "init u1", "deinit s1", "deinit u1", "deinit m1", "deinit m2"]
    );
    assert_eq!(architecture.registered_count(), 0);
}

#[test]
fn second_deinit_and_second_init_run_no_hook() {
    let log = Arc::new(Mutex::new(Vec::new()));
    let mut architecture: Arch = Builder::<NoPatch>::new("Twice").model(key::<K<1>>(), logged("m", &log)).build();

    architecture.init();
    assert_eq!(*log.lock().unwrap(), vec!["init m"]);

    architecture.deinit();
    architecture.deinit();
    assert_eq!(*log.lock().unwrap(), vec!["init m", "deinit m"]);
}

#[test]
fn registration_after_init_runs_init_at_once() {
    let log = Arc::new(Mutex::new(Vec::new()));
    let mut architecture: Arch = Builder::<NoPatch>::new("Late").build();
    assert!(architecture.is_inited());

    let _ = architecture.register_system(key::<K<1>>(), logged("late system", &log));
    let _ = architecture.register_model(key::<K<2>>(), logged("late model", &log));
    assert_eq!(*log.lock().unwrap(), vec!["init late system", "init late model"]);
}

#[test]
fn registering_a_key_again_replaces_the_object() {
    let mut architecture: Arch = Builder::<NoPatch>::new("Replace").build();
    let _ = architecture.register_model(key::<CounterModel>(), obj(CounterModel::default()));
    let replacement = CounterModel::default();
    replacement.count.lock().unwrap().set_value_without_event(5);
    let _ = architecture.register_model(key::<CounterModel>(), obj(replacement));

    assert_eq!(architecture.registered_count(), 1);
    assert_eq!(architecture.send_query(GetCountQuery), 5);
}

#[test]
fn events_carry_the_value_sent() {
    let mut architecture: Arch = Builder::<NoPatch>::new("Payload").build();
    let seen = Arc::new(Mutex::new(Vec::new()));
    let sink = Arc::clone(&seen);
    let _subscription = architecture.register_event(
        key::<CountChangedEvent>(),
        on(move |event: &CountChangedEvent| sink.lock().unwrap().push(event.count)),
    );

    architecture.send_event(key::<CountChangedEvent>(), &CountChangedEvent { count: 11 } as &AnyEvent);
    architecture.send_event(key::<DefaultEvent>(), &DefaultEvent(3) as &AnyEvent);
    assert_eq!(*seen.lock().unwrap(), vec![11]);
    assert_eq!(architecture.try_get_model(key::<CounterModel>()).is_none(), true);
}

// ---------------------------------------------------------------------------
// A bus shared by the whole process
// ---------------------------------------------------------------------------

static GLOBAL: OnceLock<Mutex<TypeEventSystem<Handler>>> = OnceLock::new();

fn global() -> &'static Mutex<TypeEventSystem<Handler>> {
    GLOBAL.get_or_init(|| Mutex::new(TypeEventSystem::new()))
}

#[derive(Debug, Clone, Copy)]
struct GlobalEvent(i32);

#[test]
fn global_event_system_is_shared_across_architectures() {
    let received = Arc::new(AtomicI32::new(0));
    let sink = Arc::clone(&received);

    let unregister = global().lock().unwrap().register(
        key::<GlobalEvent>(),
        on(move |event: &GlobalEvent| sink.store(event.0, Ordering::SeqCst)),
    );

    global().lock().unwrap().send(key::<GlobalEvent>(), &GlobalEvent(42) as &AnyEvent);
    assert_eq!(received.load(Ordering::SeqCst), 42);

    unregister.unregister(&mut *global().lock().unwrap());
    global().lock().unwrap().send(key::<GlobalEvent>(), &GlobalEvent(7) as &AnyEvent);
    assert_eq!(received.load(Ordering::SeqCst), 42);
}

#[test]
fn patches_run_after_every_registration() {
    let architecture: Arch = Builder::new("Late model")
        .patch(RegisterSystemPatch)
        .model(key::<CounterModel>(), obj(CounterModel::default()))
        .build();

    assert!(architecture.is_inited());
    assert_eq!(architecture.registered_count(), 2);
    assert!(architecture.can_register_event());
}

#[test]
fn send_event_gives_back_one_receipt_per_subscriber() {
    let mut architecture: Arch = Builder::<NoPatch>::new("Receipts").build();
    let _a = architecture.register_event(key::<CountChangedEvent>(), on(|_: &CountChangedEvent| {}));
    let _b = architecture.register_event(key::<CountChangedEvent>(), on(|_: &CountChangedEvent| {}));
    let _c = architecture.register_event(key::<DefaultEvent>(), on(|_: &DefaultEvent| {}));

    let receipts = architecture.send_event(key::<CountChangedEvent>(), &CountChangedEvent { count: 1 } as &AnyEvent);
    assert_eq!(receipts.len(), 2);
}
