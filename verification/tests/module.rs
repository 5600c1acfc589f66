use template_module::config::{
    ConfigError, DeTemplateConfig, DeTemplateConfigMain, DeTemplateSubConfig, TemplateSubConfig,
};
use template_module::identifier::InstanceId;
use template_module::module::{new, MusicModule};
use template_module::runtime::TaskId;
use template_module::update_loop::{LoopAction, LoopEvent};
use template_module::NAME;

fn values(text: &str) -> DeTemplateConfig {
    DeTemplateConfig {
        template_field: None,
        template_subconfig: Some(DeTemplateSubConfig {
            sub_field1: Some(text.to_string()),
            sub_field2: None,
        }),
    }
}

fn incoming(windows: Vec<(&str, Vec<DeTemplateConfig>)>) -> DeTemplateConfigMain {
    DeTemplateConfigMain {
        template_field: "module".to_string(),
        template_subconfig: TemplateSubConfig {
            sub_field1: "mod".to_string(),
            sub_field2: "m2".to_string(),
        },
        windows: windows.into_iter().map(|(name, confs)| (name.to_string(), confs)).collect(),
    }
}

/// One whole pass; the activity of a slot is its name as text.
fn pass(module: &mut MusicModule<String>) -> (Vec<(InstanceId, String)>, Vec<InstanceId>) {
    let (removed, to_add) = module.begin_pass();
    let created = to_add
        .iter()
        .map(|id| (id.clone(), format!("{}#{}", id.window_name, id.instance_index)))
        .collect();
    let refused = module.finish_pass(created);
    assert!(refused.is_empty());
    (removed, to_add)
}

fn id(window: &str, index: usize) -> InstanceId {
    InstanceId::new(window, index)
}

#[test]
fn module_is_named() {
    assert_eq!(NAME, "TemplateModule");
}

#[test]
fn new_module_has_the_unnamed_window_and_no_activity() {
    let module: MusicModule<String> = new();
    let config = module.current_config();
    assert_eq!(config.template_field, "default");
    assert_eq!(config.desired_state(), vec![("", 1)]);
    assert_eq!(config.windows[0].1[0].template_subconfig.sub_field1, "default subfield1");
    assert!(module.list_activities().is_empty());
    assert!(module.is_idle());
}

#[test]
fn template_configuration_is_the_builtin_one() {
    let module: MusicModule<String> = new();
    let template = module.default_config();
    assert_eq!(template.template_field, "default");
    assert_eq!(template.template_subconfig.sub_field1, "default subfield1");
    assert_eq!(template.template_subconfig.sub_field2, "default subfield2");
    assert!(template.windows.is_empty());
}

#[test]
fn first_pass_creates_the_one_activity_of_the_unnamed_window() {
    let mut module: MusicModule<String> = new();
    let (removed, added) = pass(&mut module);
    assert!(removed.is_empty());
    assert_eq!(added, vec![id("", 0)]);
    assert_eq!(module.list_activities(), vec![id("", 0)]);
    assert_eq!(module.lookup("", 0), Some(&"#0".to_string()));
}

#[test]
fn failed_update_keeps_the_configuration() {
    let mut module: MusicModule<String> = new();
    assert!(module.update_config(Ok(incoming(vec![("main", vec![values("a")])]))).is_ok());
    match module.update_config(Err("bad text".to_string())) {
        Err(ConfigError::Parse(message)) => assert_eq!(message, "bad text"),
        other => panic!("{other:?}"),
    }
    assert_eq!(module.current_config().desired_state(), vec![("main", 1)]);
    match module.update_config(Ok(incoming(vec![("x", vec![]), ("x", vec![values("b")])]))) {
        Err(ConfigError::DuplicateWindow(name)) => assert_eq!(name, "x"),
        other => panic!("{other:?}"),
    }
    assert_eq!(module.current_config().desired_state(), vec![("main", 1)]);
    assert_eq!(module.current_config().template_field, "module");
}

#[test]
fn update_without_windows_configures_the_unnamed_one() {
    let mut module: MusicModule<String> = new();
    assert!(module.update_config(Ok(incoming(vec![]))).is_ok());
    let config = module.current_config();
    assert_eq!(config.desired_state(), vec![("", 1)]);
    assert_eq!(config.windows[0].1[0].template_field, "module");
    assert_eq!(config.windows[0].1[0].template_subconfig.sub_field1, "mod");
}

#[test]
fn update_with_windows_without_activities_still_configures_one() {
    let mut module: MusicModule<String> = new();
    assert!(module.update_config(Ok(incoming(vec![("main", vec![])]))).is_ok());
    let config = module.current_config();
    assert_eq!(config.desired_state(), vec![("main", 0), ("", 1)]);
    assert!(config.has_activity());
    pass(&mut module);
    assert_eq!(module.list_activities(), vec![id("", 0)]);
}

#[test]
fn pass_follows_a_changed_configuration() {
    let mut module: MusicModule<String> = new();
    pass(&mut module);
    module
        .update_config(Ok(incoming(vec![
            ("main", vec![values("a"), values("b")]),
            ("side", vec![values("c")]),
        ])))
        .unwrap();
    let (removed, added) = pass(&mut module);
    assert_eq!(removed, vec![(id("", 0), "#0".to_string())]);
    assert_eq!(added, vec![id("main", 0), id("main", 1), id("side", 0)]);
    assert_eq!(module.list_activities(), vec![id("main", 0), id("main", 1), id("side", 0)]);

    module
        .update_config(Ok(incoming(vec![("main", vec![values("a")]), ("side", vec![values("c")])])))
        .unwrap();
    let (removed, added) = pass(&mut module);
    assert_eq!(removed, vec![(id("main", 1), "main#1".to_string())]);
    assert!(added.is_empty());
    assert_eq!(module.list_activities(), vec![id("main", 0), id("side", 0)]);

    let (removed, added) = pass(&mut module);
    assert!(removed.is_empty());
    assert!(added.is_empty());
}

#[test]
fn removals_are_done_when_the_pass_is_opened() {
    let mut module: MusicModule<String> = new();
    pass(&mut module);
    module.update_config(Ok(incoming(vec![("main", vec![values("a")])]))).unwrap();
    let (removed, to_add) = module.begin_pass();
    assert_eq!(removed.len(), 1);
    assert_eq!(to_add, vec![id("main", 0)]);
    assert!(module.list_activities().is_empty());
    assert_eq!(module.lookup("", 0), None);
}

#[test]
fn activity_offered_twice_is_handed_back() {
    let mut module: MusicModule<String> = new();
    pass(&mut module);
    let refused = module.finish_pass(vec![
        (id("", 0), "again".to_string()),
        (id("new", 0), "fresh".to_string()),
        (id("new", 0), "twice".to_string()),
    ]);
    assert_eq!(refused, vec![(id("", 0), "again".to_string()), (id("new", 0), "twice".to_string())]);
    assert_eq!(module.list_activities(), vec![id("", 0), id("new", 0)]);
    assert_eq!(module.lookup("", 0), Some(&"#0".to_string()));
    assert_eq!(module.lookup("new", 0), Some(&"fresh".to_string()));
}

#[test]
fn tasks_get_the_values_configured_for_their_slot() {
    let mut module: MusicModule<String> = new();
    module
        .update_config(Ok(incoming(vec![
            ("main", vec![values("ab"), DeTemplateConfig { template_field: None, template_subconfig: None }]),
        ])))
        .unwrap();
    pass(&mut module);
    let mut tasks = module.spawn_tasks();
    assert_eq!(tasks.len(), 2);
    assert_eq!(tasks[0].activity, id("main", 0));
    assert_eq!(tasks[0].task, TaskId { generation: 0, serial: 0 });
    assert_eq!(tasks[1].activity, id("main", 1));
    assert_eq!(tasks[1].task, TaskId { generation: 0, serial: 1 });
    assert_eq!(tasks[0].update.next(LoopEvent::Proceed), LoopAction::Write('a'));
    assert_eq!(tasks[1].update.next(LoopEvent::Proceed), LoopAction::Write('m'));
    assert!(module.is_live(tasks[0].task));
    assert!(module.is_live(tasks[1].task));
    assert!(!module.is_idle());
}

#[test]
fn restart_silences_the_old_tasks_before_new_ones_start() {
    let mut module: MusicModule<String> = new();
    pass(&mut module);
    let old = module.spawn_tasks();
    assert_eq!(old.len(), 1);

    let pending = module.restart_producers();
    assert_eq!(pending, vec![old[0].task]);
    assert!(!module.is_idle());
    for task in pending {
        module.task_ended(task);
    }
    assert!(module.is_idle());
    assert!(!module.is_live(old[0].task));

    module.reset_runtime();
    pass(&mut module);
    let fresh = module.spawn_tasks();
    assert_eq!(fresh.len(), 1);
    assert_eq!(fresh[0].task, TaskId { generation: 1, serial: 0 });
    assert!(module.is_live(fresh[0].task));
    assert!(!module.is_live(old[0].task));
}

#[test]
fn restart_of_an_idle_module_has_nothing_to_wait_for() {
    let mut module: MusicModule<String> = new();
    assert!(module.restart_producers().is_empty());
    assert!(module.is_idle());
    module.reset_runtime();
    assert!(module.is_idle());
}
