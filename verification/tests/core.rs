use std::any::TypeId;
use std::sync::atomic::{AtomicI32, Ordering};
use std::sync::{Arc, Mutex};
use std::time::Duration;

use qframework::layer::{
    find_arch_field, parse_lifecycle, plan_expansion, AttrDesc, ExpandError, FieldDesc, Lifecycle, MetaEntry,
    StructShape,
};
use qframework::{
    ArchRef, EasyEvent, IEventHandler, ILifecycle, IOCContainer, IUnRegister, IUnRegisterList, Layer, QControllerUpdate,
    QControllers, QEventBridge, TypeEventSystem,
};

struct Log(Box<dyn Fn(&i32) + Send + Sync>);

impl IEventHandler<i32> for Log {
    type Receipt = ();

    fn receipt(&self, _event: &i32) {}

    fn handle(&self, event: &i32) {
        (self.0)(event)
    }
}

fn recorder(seen: &Arc<Mutex<Vec<(&'static str, i32)>>>, name: &'static str) -> Log {
    let seen = Arc::clone(seen);
    Log(Box::new(move |value: &i32| seen.lock().unwrap().push((name, *value))))
}

struct ChannelA;
struct ChannelB;

fn key<T: 'static>() -> TypeId {
    TypeId::of::<T>()
}

// ---------------------------------------------------------------------------
// Event bus
// ---------------------------------------------------------------------------

#[test]
fn bus_delivers_in_subscription_order_on_the_channel_only() {
    let seen = Arc::new(Mutex::new(Vec::new()));
    let mut bus: TypeEventSystem<Log> = TypeEventSystem::new();
    let _a = bus.register(key::<ChannelA>(), recorder(&seen, "a1"));
    let _b = bus.register(key::<ChannelB>(), recorder(&seen, "b"));
    let _c = bus.register(key::<ChannelA>(), recorder(&seen, "a2"));

    bus.send(key::<ChannelA>(), &5);
    assert_eq!(*seen.lock().unwrap(), vec![("a1", 5), ("a2", 5)]);
}

#[test]
fn bus_drops_events_nobody_listens_to() {
    let seen = Arc::new(Mutex::new(Vec::new()));
    let mut bus: TypeEventSystem<Log> = TypeEventSystem::new();
    assert!(!bus.has_listener(key::<ChannelA>()));
    bus.send(key::<ChannelA>(), &1);

    let _a = bus.register(key::<ChannelA>(), recorder(&seen, "late"));
    assert!(bus.has_listener(key::<ChannelA>()));
    bus.send(key::<ChannelA>(), &2);
    assert_eq!(*seen.lock().unwrap(), vec![("late", 2)]);
}

#[test]
fn bus_ids_are_never_reused() {
    let seen = Arc::new(Mutex::new(Vec::new()));
    let mut bus: TypeEventSystem<Log> = TypeEventSystem::new();
    let first = bus.register(key::<ChannelA>(), recorder(&seen, "x"));
    assert_eq!(first.id(), Some(0));
    bus.clear();
    assert!(!bus.has_listener(key::<ChannelA>()));

    let second = bus.register(key::<ChannelA>(), recorder(&seen, "y"));
    assert_eq!(second.id(), Some(1));

    first.unregister(&mut bus);
    bus.send(key::<ChannelA>(), &3);
    assert_eq!(*seen.lock().unwrap(), vec![("y", 3)]);
}

#[test]
fn unregistering_twice_is_harmless() {
    let seen = Arc::new(Mutex::new(Vec::new()));
    let mut bus: TypeEventSystem<Log> = TypeEventSystem::new();
    let handle = bus.register(key::<ChannelA>(), recorder(&seen, "x"));
    let _other = bus.register(key::<ChannelA>(), recorder(&seen, "y"));

    handle.unregister(&mut bus);
    handle.unregister(&mut bus);
    bus.send(key::<ChannelA>(), &4);
    assert_eq!(*seen.lock().unwrap(), vec![("y", 4)]);

    IUnRegister::empty().unregister(&mut bus);
    assert_eq!(IUnRegister::empty().id(), None);
    assert!(bus.has_listener(key::<ChannelA>()));
}

#[test]
fn unregister_all_silences_one_channel_only() {
    let seen = Arc::new(Mutex::new(Vec::new()));
    let mut bus: TypeEventSystem<Log> = TypeEventSystem::new();
    let _a = bus.register(key::<ChannelA>(), recorder(&seen, "a"));
    let _b = bus.register(key::<ChannelB>(), recorder(&seen, "b"));

    bus.unregister_all(key::<ChannelA>());
    bus.send(key::<ChannelA>(), &1);
    bus.send(key::<ChannelB>(), &2);
    assert_eq!(*seen.lock().unwrap(), vec![("b", 2)]);
    assert!(!bus.has_listener(key::<ChannelA>()));
}

#[test]
fn send_default_delivers_the_default_value() {
    let seen = Arc::new(Mutex::new(Vec::new()));
    let mut bus: TypeEventSystem<Log> = TypeEventSystem::new();
    let _a = bus.register(key::<ChannelA>(), recorder(&seen, "a"));
    bus.send_default::<i32>(key::<ChannelA>());
    assert_eq!(*seen.lock().unwrap(), vec![("a", 0)]);
}

#[test]
fn easy_event_registers_sends_and_unregisters() {
    let seen = Arc::new(Mutex::new(Vec::new()));
    let mut event: EasyEvent<Log> = EasyEvent::new();
    let first = event.register(recorder(&seen, "1"));
    let _second = event.register(recorder(&seen, "2"));
    assert_eq!(event.handler_count(), 2);

    event.send(&7);
    event.unregister_by_id(first.id().unwrap());
    assert_eq!(event.handler_count(), 1);
    event.send(&8);
    assert_eq!(*seen.lock().unwrap(), vec![("1", 7), ("2", 7), ("2", 8)]);

    event.clear();
    assert_eq!(event.handler_count(), 0);
    let third = event.register(recorder(&seen, "3"));
    assert_eq!(third.id(), Some(2));
}

#[test]
fn unregister_list_cancels_every_handle_once() {
    let seen = Arc::new(Mutex::new(Vec::new()));
    let mut event: EasyEvent<Log> = EasyEvent::new();
    let mut list = IUnRegisterList::new();
    assert!(list.is_empty());
    list.add(event.register(recorder(&seen, "1")));
    list.add(event.register(recorder(&seen, "2")));
    let _kept = event.register(recorder(&seen, "3"));
    assert_eq!(list.len(), 2);

    list.unregister_all(&mut event);
    assert!(list.is_empty());
    assert_eq!(event.handler_count(), 1);
    event.send(&1);
    assert_eq!(*seen.lock().unwrap(), vec![("3", 1)]);
}

// ---------------------------------------------------------------------------
// Container
// ---------------------------------------------------------------------------

#[test]
fn container_keeps_one_instance_per_key() {
    let mut ioc: IOCContainer<i32> = IOCContainer::new();
    assert!(ioc.is_empty());
    ioc.register(key::<ChannelA>(), 1);
    ioc.register(key::<ChannelB>(), 2);
    ioc.register(key::<ChannelA>(), 3);

    assert_eq!(ioc.len(), 2);
    assert_eq!(ioc.get(key::<ChannelA>()).as_deref(), Some(&3));
    assert_eq!(*ioc.expect(key::<ChannelB>()), 2);
    assert!(ioc.contains(key::<ChannelB>()));
    assert!(ioc.get(key::<u8>()).is_none());

    ioc.register_arc(key::<u8>(), Arc::new(9));
    assert_eq!(ioc.len(), 3);
    ioc.clear();
    assert!(ioc.is_empty());
    assert!(!ioc.contains(key::<ChannelA>()));
}

// ---------------------------------------------------------------------------
// Architecture slot, event bridge, controllers
// ---------------------------------------------------------------------------

#[test]
fn arch_ref_keeps_its_first_binding() {
    let mut slot: ArchRef<&'static str> = ArchRef::new();
    assert!(!slot.is_bound());
    assert_eq!(slot.try_get(), None);

    slot.set("first");
    slot.set("second");
    assert!(slot.is_bound());
    assert_eq!(*slot.get(), "first");
}

#[test]
fn event_bridge_drains_oldest_first() {
    let mut bridge: QEventBridge<i32> = QEventBridge::new();
    assert!(bridge.is_empty());
    bridge.push(1);
    bridge.push(2);
    bridge.push(3);
    assert_eq!(bridge.len(), 3);

    assert_eq!(bridge.drain(), vec![1, 2, 3]);
    assert!(bridge.is_empty());
    assert_eq!(bridge.drain(), Vec::<i32>::new());
}

trait Frame: ILifecycle<HookReceipt = ()> + QControllerUpdate<UpdateReceipt = ()> {}
impl<C: ILifecycle<HookReceipt = ()> + QControllerUpdate<UpdateReceipt = ()>> Frame for C {}

struct Counter {
    name: &'static str,
    log: Arc<Mutex<Vec<String>>>,
    frames: AtomicI32,
}

impl ILifecycle for Counter {
    type HookReceipt = ();
    fn init_receipt(&self) {}
    fn deinit_receipt(&self) {}
    fn init(&self) {
        self.log.lock().unwrap().push(format!("init {}", self.name));
    }

    fn deinit(&self) {
        self.log.lock().unwrap().push(format!("deinit {}", self.name));
    }
}

impl QControllerUpdate for Counter {
    type UpdateReceipt = ();
    fn update_receipt(&self, _delta: Duration) {}
    fn update(&self, delta: Duration) {
        self.frames.fetch_add(delta.as_millis() as i32, Ordering::SeqCst);
    }
}

#[test]
fn controllers_init_on_add_update_and_deinit_in_order() {
    let log = Arc::new(Mutex::new(Vec::new()));
    let a = Arc::new(Counter { name: "a", log: Arc::clone(&log), frames: AtomicI32::new(0) });
    let b = Arc::new(Counter { name: "b", log: Arc::clone(&log), frames: AtomicI32::new(0) });

    let mut controllers: QControllers<dyn Frame> = QControllers::new();
    assert!(controllers.is_empty());
    let first: Arc<dyn Frame> = a.clone();
    let second: Arc<dyn Frame> = b.clone();
    controllers.add(first);
    controllers.add(second);
    assert_eq!(controllers.len(), 2);
    assert_eq!(controllers.iter().len(), 2);

    controllers.update_all(Duration::from_millis(16));
    controllers.update_all(Duration::from_millis(16));
    assert_eq!(a.frames.load(Ordering::SeqCst), 32);
    assert_eq!(b.frames.load(Ordering::SeqCst), 32);

    controllers.deinit_all();
    assert_eq!(*log.lock().unwrap(), vec!["init a", "init b", "deinit a", "deinit b"]);
    assert_eq!(controllers.len(), 2);
    controllers.clear();
    assert!(controllers.is_empty());
}

// ---------------------------------------------------------------------------
// Layer derive rules
// ---------------------------------------------------------------------------

fn field(name: &str, marked: bool) -> FieldDesc {
    FieldDesc { name: name.to_string(), has_arch_attr: marked }
}

fn helper(path: &str, entries: Vec<MetaEntry<i32>>) -> AttrDesc<i32, &'static str> {
    AttrDesc { path: Some(path.to_string()), entries: Ok(entries) }
}

fn entry(name: &str, value: i32) -> MetaEntry<i32> {
    MetaEntry::NameValue(Some(name.to_string()), value)
}

#[test]
fn layer_capabilities_and_names() {
    assert_eq!(
        Layer::Controller.capabilities(),
        vec!["ICanGetModel", "ICanGetSystem", "ICanSendCommand", "ICanSendQuery", "ICanRegisterEvent"]
    );
    assert_eq!(
        Layer::System.capabilities(),
        vec!["ICanGetModel", "ICanGetSystem", "ICanGetUtility", "ICanSendEvent", "ICanRegisterEvent"]
    );
    assert_eq!(Layer::Model.capabilities(), vec!["ICanGetUtility", "ICanSendEvent"]);
    assert!(Layer::Utility.capabilities().is_empty());
    assert_eq!(Layer::Model.layer_trait_name(), "IModel");
    assert_eq!(Layer::Controller.helper_attribute(), "controller");
    assert!(Layer::System.needs_arch());
}

#[test]
fn arch_field_prefers_the_marked_field_then_the_name_arch() {
    let both = StructShape::NamedFields(vec![field("arch", false), field("context", true)]);
    assert_eq!(find_arch_field(&both, Layer::Model), Ok("context".to_string()));

    let named = StructShape::NamedFields(vec![field("count", false), field("arch", false)]);
    assert_eq!(find_arch_field(&named, Layer::Model), Ok("arch".to_string()));
}

#[test]
fn arch_field_errors() {
    assert_eq!(find_arch_field(&StructShape::NotAStruct, Layer::Model), Err(ExpandError::NotAStruct(Layer::Model)));
    assert_eq!(
        find_arch_field(&StructShape::UnnamedFields, Layer::System),
        Err(ExpandError::NoNamedFields(Layer::System))
    );
    let none = StructShape::NamedFields(vec![field("count", false)]);
    assert_eq!(find_arch_field(&none, Layer::Controller), Err(ExpandError::MissingArchField(Layer::Controller)));
}

#[test]
fn lifecycle_hooks_come_from_the_layer_attribute_and_later_ones_win() {
    let attrs = vec![
        helper("system", vec![entry("init", 9)]),
        helper("model", vec![entry("init", 1)]),
        AttrDesc { path: None, entries: Err("ignored") },
        helper("model", vec![entry("deinit", 2), entry("init", 3)]),
    ];
    assert_eq!(parse_lifecycle(attrs, Layer::Model), Ok(Lifecycle { init: Some(3), deinit: Some(2) }));

    let none: Vec<AttrDesc<i32, &'static str>> = Vec::new();
    assert_eq!(parse_lifecycle(none, Layer::Model), Ok(Lifecycle { init: None, deinit: None }));
}

#[test]
fn lifecycle_attribute_errors() {
    let unsupported = vec![helper("model", vec![MetaEntry::Other])];
    assert_eq!(parse_lifecycle(unsupported, Layer::Model), Err(ExpandError::UnsupportedEntry(Layer::Model)));

    let unknown = vec![helper("model", vec![entry("start", 1)])];
    assert_eq!(parse_lifecycle(unknown, Layer::Model), Err(ExpandError::UnknownKey(Layer::Model)));

    let unnamed = vec![helper("model", vec![MetaEntry::NameValue(None, 1)])];
    assert_eq!(parse_lifecycle(unnamed, Layer::Model), Err(ExpandError::UnknownKey(Layer::Model)));

    let broken: Vec<AttrDesc<i32, &'static str>> = vec![AttrDesc { path: Some("model".to_string()), entries: Err("bad") }];
    assert_eq!(parse_lifecycle(broken, Layer::Model), Err(ExpandError::Parse("bad")));
}

#[test]
fn expansion_plans() {
    let plan = plan_expansion::<i32, &'static str>(&StructShape::UnnamedFields, Vec::new(), true, Layer::Utility).unwrap();
    assert_eq!(plan.layer_trait, "IUtility");
    assert_eq!(plan.arch_field, None);
    assert!(plan.capabilities.is_empty());
    assert!(plan.needs_thread_bounds);

    let shape = StructShape::NamedFields(vec![field("arch", false)]);
    let plan = plan_expansion(&shape, vec![helper("model", vec![entry("init", 4)])], false, Layer::Model).unwrap();
    assert_eq!(plan.layer_trait, "IModel");
    assert_eq!(plan.arch_field, Some("arch".to_string()));
    assert_eq!(plan.capabilities, vec!["ICanGetUtility", "ICanSendEvent"]);
    assert!(!plan.needs_thread_bounds);
    assert_eq!(plan.lifecycle, Lifecycle { init: Some(4), deinit: None });

    let missing = plan_expansion::<i32, &'static str>(&StructShape::NamedFields(Vec::new()), Vec::new(), false, Layer::System);
    assert_eq!(missing.err(), Some(ExpandError::MissingArchField(Layer::System)));
}

#[test]
fn sends_give_back_one_receipt_per_call() {
    let seen = Arc::new(Mutex::new(Vec::new()));
    let mut bus: TypeEventSystem<Log> = TypeEventSystem::new();
    assert!(bus.has_fresh_id());
    let _a = bus.register(key::<ChannelA>(), recorder(&seen, "a"));
    let _b = bus.register(key::<ChannelB>(), recorder(&seen, "b"));
    assert_eq!(bus.send(key::<ChannelA>(), &1).len(), 1);
    assert_eq!(bus.send(key::<u8>(), &1).len(), 0);

    let mut event: EasyEvent<Log> = EasyEvent::new();
    let _x = event.register(recorder(&seen, "x"));
    let _y = event.register(recorder(&seen, "y"));
    assert_eq!(event.send(&2).len(), 2);
}
