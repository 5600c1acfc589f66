use template_module::config::{
    ingest, ConfigError, DeTemplateConfig, DeTemplateConfigMain, DeTemplateSubConfig,
    TemplateConfig, TemplateConfigMain, TemplateSubConfig,
};

fn sub(first: &str, second: &str) -> TemplateSubConfig {
    TemplateSubConfig { sub_field1: first.to_string(), sub_field2: second.to_string() }
}

fn conf(field: &str, first: &str, second: &str) -> TemplateConfig {
    TemplateConfig { template_field: field.to_string(), template_subconfig: sub(first, second) }
}

fn same(left: &TemplateConfig, right: &TemplateConfig) -> bool {
    left.template_field == right.template_field
        && left.template_subconfig.sub_field1 == right.template_subconfig.sub_field1
        && left.template_subconfig.sub_field2 == right.template_subconfig.sub_field2
}

fn same_main(left: &TemplateConfigMain, right: &TemplateConfigMain) -> bool {
    left.template_field == right.template_field
        && left.template_subconfig.sub_field1 == right.template_subconfig.sub_field1
        && left.template_subconfig.sub_field2 == right.template_subconfig.sub_field2
        && left.windows.len() == right.windows.len()
        && left.windows.iter().zip(right.windows.iter()).all(|(l, r)| {
            l.0 == r.0 && l.1.len() == r.1.len() && l.1.iter().zip(r.1.iter()).all(|(a, b)| same(a, b))
        })
}

fn open_conf() -> DeTemplateConfig {
    DeTemplateConfig { template_field: None, template_subconfig: None }
}

fn incoming(windows: Vec<(&str, Vec<DeTemplateConfig>)>) -> DeTemplateConfigMain {
    DeTemplateConfigMain {
        template_field: "module".to_string(),
        template_subconfig: sub("m1", "m2"),
        windows: windows.into_iter().map(|(name, confs)| (name.to_string(), confs)).collect(),
    }
}

/// The configuration with every option stated by every activity.
fn explicit(config: &TemplateConfigMain) -> DeTemplateConfigMain {
    DeTemplateConfigMain {
        template_field: config.template_field.clone(),
        template_subconfig: config.template_subconfig.clone(),
        windows: config
            .windows
            .iter()
            .map(|(name, confs)| {
                (
                    name.clone(),
                    confs
                        .iter()
                        .map(|c| DeTemplateConfig {
                            template_field: Some(c.template_field.clone()),
                            template_subconfig: Some(DeTemplateSubConfig {
                                sub_field1: Some(c.template_subconfig.sub_field1.clone()),
                                sub_field2: Some(c.template_subconfig.sub_field2.clone()),
                            }),
                        })
                        .collect(),
                )
            })
            .collect(),
    }
}

#[test]
fn builtin_options_of_an_activity() {
    let config = TemplateConfig::default();
    assert_eq!(config.template_field, "default");
    assert_eq!(config.template_subconfig.sub_field1, "default subfield1");
    assert_eq!(config.template_subconfig.sub_field2, "default subfield2");
}

#[test]
fn builtin_configuration_has_no_window() {
    let config = TemplateConfigMain::default();
    assert_eq!(config.template_field, "default");
    assert_eq!(config.template_subconfig.sub_field1, "default subfield1");
    assert_eq!(config.template_subconfig.sub_field2, "default subfield2");
    assert!(config.windows.is_empty());
}

#[test]
fn builtin_incoming_configuration_is_the_builtin_one_in_full() {
    let incoming = DeTemplateConfigMain::default();
    assert_eq!(incoming.template_field, "default");
    assert_eq!(incoming.template_subconfig.sub_field1, "default subfield1");
    assert_eq!(incoming.template_subconfig.sub_field2, "default subfield2");
    assert!(incoming.windows.is_empty());
}

#[test]
fn open_options_are_all_open_by_default() {
    let open = DeTemplateConfig::default();
    assert!(open.template_field.is_none());
    assert!(open.template_subconfig.is_none());
    let open = DeTemplateSubConfig::default();
    assert!(open.sub_field1.is_none());
    assert!(open.sub_field2.is_none());
}

#[test]
fn stated_option_wins_over_the_default() {
    let stated = DeTemplateConfig {
        template_field: Some("mine".to_string()),
        template_subconfig: Some(DeTemplateSubConfig {
            sub_field1: None,
            sub_field2: Some("two".to_string()),
        }),
    };
    let merged = stated.into_config(&conf("base", "b1", "b2"));
    assert!(same(&merged, &conf("mine", "b1", "two")));
}

#[test]
fn open_options_take_the_default() {
    let merged = open_conf().into_config(&conf("base", "b1", "b2"));
    assert!(same(&merged, &conf("base", "b1", "b2")));
    let merged = DeTemplateSubConfig { sub_field1: Some("x".to_string()), sub_field2: None }
        .into_config(&sub("b1", "b2"));
    assert_eq!(merged.sub_field1, "x");
    assert_eq!(merged.sub_field2, "b2");
}

#[test]
fn activities_take_open_options_from_the_module() {
    let incoming = incoming(vec![
        (
            "main",
            vec![
                open_conf(),
                DeTemplateConfig {
                    template_field: Some("own".to_string()),
                    template_subconfig: Some(DeTemplateSubConfig {
                        sub_field1: Some("abc".to_string()),
                        sub_field2: None,
                    }),
                },
            ],
        ),
        ("side", vec![]),
    ]);
    let config = incoming.into_main_config();
    assert_eq!(config.template_field, "module");
    assert_eq!(config.windows.len(), 2);
    assert_eq!(config.windows[0].0, "main");
    assert_eq!(config.windows[0].1.len(), 2);
    assert!(same(&config.windows[0].1[0], &conf("module", "m1", "m2")));
    assert!(same(&config.windows[0].1[1], &conf("own", "abc", "m2")));
    assert_eq!(config.windows[1].0, "side");
    assert!(config.windows[1].1.is_empty());
}

#[test]
fn options_of_a_slot_fall_back_to_the_module() {
    let config = incoming(vec![(
        "main",
        vec![DeTemplateConfig { template_field: Some("zero".to_string()), template_subconfig: None }],
    )])
    .into_main_config();
    assert!(same(&config.get_for_window("main", 0), &conf("zero", "m1", "m2")));
    assert!(same(&config.get_for_window("main", 1), &conf("module", "m1", "m2")));
    assert!(same(&config.get_for_window("other", 0), &conf("module", "m1", "m2")));
    assert!(same(&config.default_conf(), &conf("module", "m1", "m2")));
}

#[test]
fn desired_state_counts_the_activities_per_window() {
    let config = incoming(vec![
        ("main", vec![open_conf(), open_conf(), open_conf()]),
        ("", vec![open_conf()]),
        ("empty", vec![]),
    ])
    .into_main_config();
    assert_eq!(
        config.desired_state(),
        vec![("main", 3), ("", 1), ("empty", 0)]
    );
}

#[test]
fn configuration_without_windows_gets_the_unnamed_one() {
    let mut config = incoming(vec![]).into_main_config();
    config.ensure_default_window();
    assert_eq!(config.windows.len(), 1);
    assert_eq!(config.windows[0].0, "");
    assert_eq!(config.windows[0].1.len(), 1);
    assert!(same(&config.windows[0].1[0], &conf("module", "m1", "m2")));
}

#[test]
fn configuration_with_an_activity_is_left_as_it_is() {
    let mut config = incoming(vec![("side", vec![]), ("main", vec![open_conf()])]).into_main_config();
    assert!(config.has_activity());
    config.ensure_default_window();
    assert_eq!(config.desired_state(), vec![("side", 0), ("main", 1)]);
}

#[test]
fn windows_without_activities_get_the_unnamed_one_behind_them() {
    let mut config = incoming(vec![("main", vec![]), ("side", vec![])]).into_main_config();
    assert!(!config.has_activity());
    config.ensure_default_window();
    assert!(config.has_activity());
    assert_eq!(config.desired_state(), vec![("main", 0), ("side", 0), ("", 1)]);
    assert!(same(&config.windows[2].1[0], &conf("module", "m1", "m2")));
}

#[test]
fn unnamed_window_without_activities_gets_one() {
    let mut config = incoming(vec![("main", vec![]), ("", vec![]), ("side", vec![])]).into_main_config();
    config.ensure_default_window();
    assert_eq!(config.desired_state(), vec![("main", 0), ("", 1), ("side", 0)]);
    assert!(same(&config.windows[1].1[0], &conf("module", "m1", "m2")));
}

#[test]
fn configuration_that_takes_effect_has_an_activity() {
    let cases = vec![
        incoming(vec![]),
        incoming(vec![("main", vec![])]),
        incoming(vec![("", vec![])]),
        incoming(vec![("a", vec![]), ("b", vec![])]),
        incoming(vec![("a", vec![]), ("b", vec![open_conf()])]),
    ];
    for case in cases {
        let config = ingest(Ok(case)).unwrap();
        let total: usize = config.windows.iter().map(|window| window.1.len()).sum();
        assert!(total >= 1);
        assert!(config.has_activity());
    }
    let config = ingest(Ok(incoming(vec![("main", vec![])]))).unwrap();
    assert_eq!(config.desired_state(), vec![("main", 0), ("", 1)]);
}

#[test]
fn unreadable_configuration_is_a_parse_error() {
    match ingest(Err("expected value at line 1 column 1".to_string())) {
        Err(ConfigError::Parse(message)) => {
            assert_eq!(message, "expected value at line 1 column 1")
        }
        other => panic!("{other:?}"),
    }
}

#[test]
fn window_configured_twice_is_refused() {
    let twice = incoming(vec![("a", vec![]), ("b", vec![]), ("c", vec![]), ("b", vec![]), ("a", vec![])]);
    assert_eq!(twice.first_repeated_window(), Some(3));
    match ingest(Ok(twice)) {
        Err(ConfigError::DuplicateWindow(name)) => assert_eq!(name, "b"),
        other => panic!("{other:?}"),
    }
}

#[test]
fn readable_configuration_takes_effect_filled_in() {
    let distinct = incoming(vec![("a", vec![open_conf()]), ("b", vec![])]);
    assert_eq!(distinct.first_repeated_window(), None);
    let config = ingest(Ok(distinct)).unwrap();
    assert_eq!(config.windows.len(), 2);
    assert!(same(&config.windows[0].1[0], &conf("module", "m1", "m2")));
    let config = ingest(Ok(incoming(vec![]))).unwrap();
    assert_eq!(config.desired_state(), vec![("", 1)]);
}

#[test]
fn configuration_written_in_full_reads_back_the_same() {
    let mut config = incoming(vec![
        ("main", vec![open_conf(), DeTemplateConfig { template_field: Some("x".to_string()), template_subconfig: None }]),
        ("side", vec![]),
    ])
    .into_main_config();
    config.template_field = "changed".to_string();
    let back = explicit(&config).into_main_config();
    assert!(same_main(&back, &config));
    let back = ingest(Ok(explicit(&config))).unwrap();
    assert!(same_main(&back, &config));
}

#[test]
fn builtin_configuration_reads_back_as_the_starting_one() {
    let exported = TemplateConfigMain::default();
    let back = ingest(Ok(explicit(&exported))).unwrap();
    let mut start = TemplateConfigMain::default();
    start.ensure_default_window();
    assert!(same_main(&back, &start));
    assert_eq!(back.windows.len(), 1);
    assert_eq!(back.windows[0].0, "");
    assert!(same(&back.windows[0].1[0], &TemplateConfig::default()));
}

#[test]
fn cloned_options_are_the_same() {
    let config = conf("a", "b", "c");
    assert!(same(&config.clone(), &config));
    assert_eq!(config.template_subconfig.clone().sub_field2, "c");
}
