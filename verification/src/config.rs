//! The configuration of the module: module-wide options, and per window the
//! options of each activity. An option that an activity leaves open takes
//! the module-wide value; an option that the module leaves open takes the
//! built-in default.

use crate::reconciler::desired_view;
use crate::text::str_eq;
use vstd::prelude::*;

verus! {

/// What a [`TemplateSubConfig`] holds.
pub struct SubConfigView {
    pub sub_field1: Seq<char>,
    pub sub_field2: Seq<char>,
}

/// What a [`TemplateConfig`] holds.
pub struct ConfigView {
    pub template_field: Seq<char>,
    pub template_subconfig: SubConfigView,
}

/// What a [`TemplateConfigMain`] holds: the module-wide options and, per
/// window in the order given, the options of its activities.
pub struct MainConfigView {
    pub template_field: Seq<char>,
    pub template_subconfig: SubConfigView,
    pub windows: Seq<(Seq<char>, Seq<ConfigView>)>,
}

/// What a [`DeTemplateSubConfig`] holds.
pub struct SubOverrideView {
    pub sub_field1: Option<Seq<char>>,
    pub sub_field2: Option<Seq<char>>,
}

/// What a [`DeTemplateConfig`] holds.
pub struct OverrideView {
    pub template_field: Option<Seq<char>>,
    pub template_subconfig: Option<SubOverrideView>,
}

/// What a [`DeTemplateConfigMain`] holds.
pub struct MainOverrideView {
    pub template_field: Seq<char>,
    pub template_subconfig: SubConfigView,
    pub windows: Seq<(Seq<char>, Seq<OverrideView>)>,
}

/// The nested options of an activity.
#[derive(Debug)]
pub struct TemplateSubConfig {
    pub sub_field1: String,
    pub sub_field2: String,
}

/// The options of one activity.
#[derive(Debug)]
pub struct TemplateConfig {
    pub template_field: String,
    pub template_subconfig: TemplateSubConfig,
}

/// The configuration in use: module-wide options and the activities of each
/// window, every option filled in.
#[derive(Debug)]
pub struct TemplateConfigMain {
    pub template_field: String,
    pub template_subconfig: TemplateSubConfig,
    pub windows: Vec<(String, Vec<TemplateConfig>)>,
}

/// Nested options as an activity states them: each may be left open.
#[derive(Debug)]
pub struct DeTemplateSubConfig {
    pub sub_field1: Option<String>,
    pub sub_field2: Option<String>,
}

/// Options as an activity states them: each may be left open.
#[derive(Debug)]
pub struct DeTemplateConfig {
    pub template_field: Option<String>,
    pub template_subconfig: Option<DeTemplateSubConfig>,
}

/// A configuration as it comes in: module-wide options, and per window the
/// options that each activity states.
#[derive(Debug)]
pub struct DeTemplateConfigMain {
    pub template_field: String,
    pub template_subconfig: TemplateSubConfig,
    pub windows: Vec<(String, Vec<DeTemplateConfig>)>,
}

/// The view of an optional string.
pub open spec fn text_view(text: Option<String>) -> Option<Seq<char>> {
    match text {
        Some(s) => Some(s@),
        None => None,
    }
}

impl View for TemplateSubConfig {
    type V = SubConfigView;

    open spec fn view(&self) -> SubConfigView {
        SubConfigView { sub_field1: self.sub_field1@, sub_field2: self.sub_field2@ }
    }
}

impl View for TemplateConfig {
    type V = ConfigView;

    open spec fn view(&self) -> ConfigView {
        ConfigView {
            template_field: self.template_field@,
            template_subconfig: self.template_subconfig@,
        }
    }
}

/// The views of the activities of one window.
pub open spec fn config_views(configs: Seq<TemplateConfig>) -> Seq<ConfigView> {
    configs.map_values(|config: TemplateConfig| config@)
}

/// The views of the windows of a configuration.
pub open spec fn window_views(windows: Seq<(String, Vec<TemplateConfig>)>) -> Seq<
    (Seq<char>, Seq<ConfigView>),
> {
    windows.map_values(|window: (String, Vec<TemplateConfig>)| (window.0@, config_views(window.1@)))
}

impl View for TemplateConfigMain {
    type V = MainConfigView;

    open spec fn view(&self) -> MainConfigView {
        MainConfigView {
            template_field: self.template_field@,
            template_subconfig: self.template_subconfig@,
            windows: window_views(self.windows@),
        }
    }
}

impl View for DeTemplateSubConfig {
    type V = SubOverrideView;

    open spec fn view(&self) -> SubOverrideView {
        SubOverrideView {
            sub_field1: text_view(self.sub_field1),
            sub_field2: text_view(self.sub_field2),
        }
    }
}

impl View for DeTemplateConfig {
    type V = OverrideView;

    open spec fn view(&self) -> OverrideView {
        OverrideView {
            template_field: text_view(self.template_field),
            template_subconfig: match self.template_subconfig {
                Some(sub) => Some(sub@),
                None => None,
            },
        }
    }
}

/// The views of the stated options of the activities of one window.
pub open spec fn override_views(configs: Seq<DeTemplateConfig>) -> Seq<OverrideView> {
    configs.map_values(|config: DeTemplateConfig| config@)
}

/// The views of the windows of an incoming configuration.
pub open spec fn override_window_views(windows: Seq<(String, Vec<DeTemplateConfig>)>) -> Seq<
    (Seq<char>, Seq<OverrideView>),
> {
    windows.map_values(
        |window: (String, Vec<DeTemplateConfig>)| (window.0@, override_views(window.1@)),
    )
}

impl View for DeTemplateConfigMain {
    type V = MainOverrideView;

    open spec fn view(&self) -> MainOverrideView {
        MainOverrideView {
            template_field: self.template_field@,
            template_subconfig: self.template_subconfig@,
            windows: override_window_views(self.windows@),
        }
    }
}

/// The built-in options of an activity.
pub open spec fn builtin_config() -> ConfigView {
    ConfigView {
        template_field: "default"@,
        template_subconfig: SubConfigView {
            sub_field1: "default subfield1"@,
            sub_field2: "default subfield2"@,
        },
    }
}

/// The built-in configuration: the built-in options module-wide, and no
/// window.
pub open spec fn builtin_main_config() -> MainConfigView {
    MainConfigView {
        template_field: builtin_config().template_field,
        template_subconfig: builtin_config().template_subconfig,
        windows: Seq::empty(),
    }
}

/// The name of the window that stands in where no activity is configured.
pub open spec fn default_window() -> Seq<char> {
    Seq::empty()
}

/// The number of activities in a list of windows.
pub open spec fn count_activities(windows: Seq<(Seq<char>, Seq<ConfigView>)>) -> nat
    decreases windows.len(),
{
    if windows.len() == 0 {
        0
    } else {
        count_activities(windows.drop_last()) + windows.last().1.len()
    }
}

/// Windows hold no activity together exactly when each of them holds none.
pub proof fn lemma_count_activities(windows: Seq<(Seq<char>, Seq<ConfigView>)>)
    ensures
        count_activities(windows) == 0 <==> forall|k: int|
            0 <= k < windows.len() ==> (#[trigger] windows[k]).1.len() == 0,
    decreases windows.len(),
{
    if windows.len() > 0 {
        let front = windows.drop_last();
        lemma_count_activities(front);
        if count_activities(windows) == 0 {
            assert forall|k: int| 0 <= k < windows.len() implies (#[trigger] windows[k]).1.len()
                == 0 by {
                if k < front.len() {
                    assert(front[k] == windows[k]);
                }
            }
        }
        if forall|k: int| 0 <= k < windows.len() ==> (#[trigger] windows[k]).1.len() == 0 {
            assert forall|k: int| 0 <= k < front.len() implies (#[trigger] front[k]).1.len()
                == 0 by {
                assert(front[k] == windows[k]);
            }
            assert(windows[windows.len() - 1].1.len() == 0);
        }
    }
}

/// The first window of a name before or at a window of that name.
proof fn lemma_first_window(
    windows: Seq<(Seq<char>, Seq<ConfigView>)>,
    window: Seq<char>,
    n: int,
) -> (k: int)
    requires
        0 <= n < windows.len(),
        windows[n].0 == window,
    ensures
        0 <= k <= n,
        windows[k].0 == window,
        forall|j: int| 0 <= j < k ==> (#[trigger] windows[j]).0 != window,
    decreases n,
{
    if exists|j: int| 0 <= j < n && (#[trigger] windows[j]).0 == window {
        let j = choose|j: int| 0 <= j < n && (#[trigger] windows[j]).0 == window;
        lemma_first_window(windows, window, j)
    } else {
        n
    }
}

/// What finding a window gives: the first window of the name, or nothing
/// where no window has the name.
pub proof fn lemma_find_window(config: MainConfigView, window: Seq<char>)
    ensures
        match config.find_window(window) {
            Some(k) => 0 <= k < config.windows.len() && config.windows[k].0 == window
                && forall|j: int| 0 <= j < k ==> (#[trigger] config.windows[j]).0 != window,
            None => forall|j: int|
                0 <= j < config.windows.len() ==> (#[trigger] config.windows[j]).0 != window,
        },
{
    if exists|k: int| 0 <= k < config.windows.len() && (#[trigger] config.windows[k]).0 == window {
        let n = choose|k: int|
            0 <= k < config.windows.len() && (#[trigger] config.windows[k]).0 == window;
        let first = lemma_first_window(config.windows, window, n);
        assert(config.windows[first].0 == window);
    }
}

/// A configuration with the stand-in window in place configures an
/// activity, and names no window twice where it named none twice before.
pub proof fn lemma_with_default_window(config: MainConfigView)
    ensures
        config.with_default_window().activity_count() >= 1,
        config.with_default_window().windows.len() > 0,
        config.distinct_windows() ==> config.with_default_window().distinct_windows(),
        config.activity_count() >= 1 ==> config.with_default_window() == config,
{
    let after = config.with_default_window();
    lemma_count_activities(config.windows);
    lemma_count_activities(after.windows);
    lemma_find_window(config, default_window());
    if config.activity_count() == 0 {
        match config.find_window(default_window()) {
            Some(k) => {
                assert(after.windows[k].1.len() == 1);
                if config.distinct_windows() {
                    assert forall|a: int, b: int| 0 <= a < b < after.windows.len() implies (
                    #[trigger] after.windows[a]).0 != (#[trigger] after.windows[b]).0 by {
                        assert(after.windows[a].0 == config.windows[a].0);
                        assert(after.windows[b].0 == config.windows[b].0);
                    }
                }
            },
            None => {
                let at = config.windows.len() as int;
                assert(after.windows[at].1.len() == 1);
                if config.distinct_windows() {
                    assert forall|a: int, b: int| 0 <= a < b < after.windows.len() implies (
                    #[trigger] after.windows[a]).0 != (#[trigger] after.windows[b]).0 by {
                        if b == at {
                            assert(config.windows[a].0 != default_window());
                        } else {
                            assert(after.windows[a] == config.windows[a]);
                            assert(after.windows[b] == config.windows[b]);
                        }
                    }
                }
            },
        }
    }
}

impl MainConfigView {
    /// The options of an activity that states none: the module-wide ones.
    pub open spec fn default_conf(self) -> ConfigView {
        ConfigView {
            template_field: self.template_field,
            template_subconfig: self.template_subconfig,
        }
    }

    /// The first window of that name, if there is one.
    pub open spec fn find_window(self, window: Seq<char>) -> Option<int> {
        if exists|k: int| 0 <= k < self.windows.len() && (#[trigger] self.windows[k]).0 == window {
            Some(
                choose|k: int|
                    0 <= k < self.windows.len() && (#[trigger] self.windows[k]).0 == window
                        && forall|j: int|
                        0 <= j < k ==> (#[trigger] self.windows[j]).0 != window,
            )
        } else {
            None
        }
    }

    /// The options of slot `idx` of `window`: those configured for it, and
    /// the module-wide ones where the window or the slot is not configured.
    pub open spec fn get_for_window(self, window: Seq<char>, idx: nat) -> ConfigView {
        match self.find_window(window) {
            Some(k) => if idx < self.windows[k].1.len() {
                self.windows[k].1[idx as int]
            } else {
                self.default_conf()
            },
            None => self.default_conf(),
        }
    }

    /// No window is configured twice.
    pub open spec fn distinct_windows(self) -> bool {
        forall|a: int, b: int|
            0 <= a < b < self.windows.len() ==> (#[trigger] self.windows[a]).0
                != (#[trigger] self.windows[b]).0
    }

    /// The number of activities configured in all windows together.
    pub open spec fn activity_count(self) -> nat {
        count_activities(self.windows)
    }

    /// The one activity that stands in where none is configured: it has the
    /// module-wide options.
    pub open spec fn stand_in(self) -> (Seq<char>, Seq<ConfigView>) {
        (default_window(), seq![self.default_conf()])
    }

    /// The same configuration where it configures an activity. Where it
    /// configures none, in no window or only in windows without activities,
    /// the stand-in window holds one activity: the window of that name gets
    /// it, and where there is none, the stand-in window is added behind the
    /// others.
    pub open spec fn with_default_window(self) -> MainConfigView {
        if self.activity_count() > 0 {
            self
        } else {
            match self.find_window(default_window()) {
                Some(k) => MainConfigView {
                    windows: self.windows.update(k, self.stand_in()),
                    ..self
                },
                None => MainConfigView { windows: self.windows.push(self.stand_in()), ..self },
            }
        }
    }

    /// The desired number of activities per window.
    pub open spec fn desired(self) -> Seq<(Seq<char>, nat)> {
        self.windows.map_values(|window: (Seq<char>, Seq<ConfigView>)| (window.0, window.1.len()))
    }

    /// The configuration written out in full: every activity states every
    /// option.
    pub open spec fn explicit(self) -> MainOverrideView {
        MainOverrideView {
            template_field: self.template_field,
            template_subconfig: self.template_subconfig,
            windows: self.windows.map_values(
                |window: (Seq<char>, Seq<ConfigView>)|
                    (window.0, window.1.map_values(|config: ConfigView| config.explicit())),
            ),
        }
    }
}

impl ConfigView {
    /// The options written out in full.
    pub open spec fn explicit(self) -> OverrideView {
        OverrideView {
            template_field: Some(self.template_field),
            template_subconfig: Some(
                SubOverrideView {
                    sub_field1: Some(self.template_subconfig.sub_field1),
                    sub_field2: Some(self.template_subconfig.sub_field2),
                },
            ),
        }
    }
}

impl SubOverrideView {
    /// The stated options, each open one taken from `default`.
    pub open spec fn into_config(self, default: SubConfigView) -> SubConfigView {
        SubConfigView {
            sub_field1: match self.sub_field1 {
                Some(text) => text,
                None => default.sub_field1,
            },
            sub_field2: match self.sub_field2 {
                Some(text) => text,
                None => default.sub_field2,
            },
        }
    }
}

impl OverrideView {
    /// The stated options, each open one taken from `default`.
    pub open spec fn into_config(self, default: ConfigView) -> ConfigView {
        ConfigView {
            template_field: match self.template_field {
                Some(text) => text,
                None => default.template_field,
            },
            template_subconfig: match self.template_subconfig {
                Some(sub) => sub.into_config(default.template_subconfig),
                None => default.template_subconfig,
            },
        }
    }
}

impl MainOverrideView {
    /// The options of an activity that states none.
    pub open spec fn default_conf(self) -> ConfigView {
        ConfigView {
            template_field: self.template_field,
            template_subconfig: self.template_subconfig,
        }
    }

    /// No window is configured twice.
    pub open spec fn distinct_windows(self) -> bool {
        forall|a: int, b: int|
            0 <= a < b < self.windows.len() ==> (#[trigger] self.windows[a]).0
                != (#[trigger] self.windows[b]).0
    }

    /// Window `b` bears a name that an earlier window bears too.
    pub open spec fn repeats(self, b: int) -> bool {
        exists|a: int| 0 <= a < b && (#[trigger] self.windows[a]).0 == self.windows[b].0
    }

    /// Window `b` is the first that bears the name of an earlier one.
    pub open spec fn first_repeat(self, b: int) -> bool {
        &&& 0 <= b < self.windows.len()
        &&& self.repeats(b)
        &&& forall|c: int| 0 <= c < b ==> !self.repeats(c)
    }

    /// The configuration that takes effect when this one comes in: every
    /// option filled in, and one activity in the stand-in window where none
    /// is configured.
    pub open spec fn ingest(self) -> MainConfigView {
        self.into_main_config().with_default_window()
    }

    /// The configuration with every option filled in: what an activity
    /// leaves open is taken from the module-wide options.
    pub open spec fn into_main_config(self) -> MainConfigView {
        MainConfigView {
            template_field: self.template_field,
            template_subconfig: self.template_subconfig,
            windows: self.windows.map_values(
                |window: (Seq<char>, Seq<OverrideView>)|
                    (
                        window.0,
                        window.1.map_values(
                            |config: OverrideView| config.into_config(self.default_conf()),
                        ),
                    ),
            ),
        }
    }
}

impl Clone for TemplateSubConfig {
    fn clone(&self) -> (res: Self)
        ensures
            res == *self,
    {
        TemplateSubConfig {
            sub_field1: self.sub_field1.clone(),
            sub_field2: self.sub_field2.clone(),
        }
    }
}

impl Clone for TemplateConfig {
    fn clone(&self) -> (res: Self)
        ensures
            res == *self,
    {
        TemplateConfig {
            template_field: self.template_field.clone(),
            template_subconfig: self.template_subconfig.clone(),
        }
    }
}

impl Default for TemplateConfig {
    fn default() -> (res: Self)
        ensures
            res@ == builtin_config(),
    {
        TemplateConfig {
            template_field: "default".to_owned(),
            template_subconfig: TemplateSubConfig {
                sub_field1: "default subfield1".to_owned(),
                sub_field2: "default subfield2".to_owned(),
            },
        }
    }
}

impl Default for DeTemplateSubConfig {
    fn default() -> (res: Self)
        ensures
            res@ == (SubOverrideView { sub_field1: None, sub_field2: None }),
    {
        DeTemplateSubConfig { sub_field1: None, sub_field2: None }
    }
}

impl Default for DeTemplateConfig {
    fn default() -> (res: Self)
        ensures
            res@ == (OverrideView { template_field: None, template_subconfig: None }),
    {
        DeTemplateConfig { template_field: None, template_subconfig: None }
    }
}

impl Default for TemplateConfigMain {
    fn default() -> (res: Self)
        ensures
            res@ == builtin_main_config(),
    {
        let child_default = TemplateConfig::default();
        let res = TemplateConfigMain {
            template_field: child_default.template_field,
            template_subconfig: child_default.template_subconfig,
            windows: Vec::new(),
        };
        assert(res@.windows =~= Seq::empty());
        res
    }
}

impl Default for DeTemplateConfigMain {
    fn default() -> (res: Self)
        ensures
            res@ == builtin_main_config().explicit(),
    {
        let child_default = TemplateConfig::default();
        let res = DeTemplateConfigMain {
            template_field: child_default.template_field,
            template_subconfig: child_default.template_subconfig,
            windows: Vec::new(),
        };
        assert(res@.windows =~= builtin_main_config().explicit().windows);
        res
    }
}

/// The stated text, or a copy of `default` where it is left open.
fn text_or(text: Option<String>, default: &String) -> (res: String)
    ensures
        res@ == match text {
            Some(s) => s@,
            None => default@,
        },
{
    match text {
        Some(s) => s,
        None => default.clone(),
    }
}

impl DeTemplateSubConfig {
    /// Fills in what is left open from `default`.
    pub fn into_config(self, default: &TemplateSubConfig) -> (res: TemplateSubConfig)
        ensures
            res@ == self@.into_config(default@),
    {
        TemplateSubConfig {
            sub_field1: text_or(self.sub_field1, &default.sub_field1),
            sub_field2: text_or(self.sub_field2, &default.sub_field2),
        }
    }
}

impl DeTemplateConfig {
    /// Fills in what is left open from `default`.
    pub fn into_config(self, default: &TemplateConfig) -> (res: TemplateConfig)
        ensures
            res@ == self@.into_config(default@),
    {
        let template_subconfig = match self.template_subconfig {
            Some(sub) => sub.into_config(&default.template_subconfig),
            None => default.template_subconfig.clone(),
        };
        TemplateConfig {
            template_field: text_or(self.template_field, &default.template_field),
            template_subconfig,
        }
    }
}

impl TemplateConfigMain {
    /// The options of an activity that states none: the module-wide ones.
    pub fn default_conf(&self) -> (res: TemplateConfig)
        ensures
            res@ == self@.default_conf(),
    {
        TemplateConfig {
            template_field: self.template_field.clone(),
            template_subconfig: self.template_subconfig.clone(),
        }
    }

    /// The options of slot `idx` of `window`: those configured for it, and
    /// the module-wide ones where the window or the slot is not configured.
    pub fn get_for_window(&self, window: &str, idx: usize) -> (res: TemplateConfig)
        ensures
            res@ == self@.get_for_window(window@, idx as nat),
    {
        let mut k: usize = 0;
        while k < self.windows.len()
            invariant
                k <= self.windows.len(),
                forall|j: int| 0 <= j < k ==> (#[trigger] self@.windows[j]).0 != window@,
            decreases self.windows.len() - k,
        {
            if str_eq(self.windows[k].0.as_str(), window) {
                assert(self@.windows[k as int].0 == window@);
                assert(self@.find_window(window@) == Some(k as int));
                assert(self@.windows[k as int].1 == config_views(self.windows[k as int].1@));
                let configs = &self.windows[k].1;
                if idx < configs.len() {
                    return configs[idx].clone();
                }
                return self.default_conf();
            }
            k += 1;
        }
        self.default_conf()
    }

    /// The desired number of activities per window, in the order of the
    /// configuration.
    pub fn desired_state(&self) -> (res: Vec<(&str, usize)>)
        ensures
            desired_view(res@) == self@.desired(),
    {
        let mut desired: Vec<(&str, usize)> = Vec::new();
        let mut k: usize = 0;
        while k < self.windows.len()
            invariant
                k <= self.windows.len(),
                desired_view(desired@) == self@.desired().take(k as int),
            decreases self.windows.len() - k,
        {
            let ghost before = desired@;
            desired.push((self.windows[k].0.as_str(), self.windows[k].1.len()));
            proof {
                let entry = (self.windows[k as int].0@, self.windows[k as int].1@.len());
                assert(self@.windows[k as int].1.len() == self.windows[k as int].1@.len());
                assert(desired_view(desired@) =~= desired_view(
                    before,
                ).push(entry));
                assert(self@.desired().take(k + 1) =~= self@.desired().take(k as int).push(entry));
            }
            k += 1;
        }
        assert(self@.desired().take(k as int) =~= self@.desired());
        desired
    }
}

impl DeTemplateConfigMain {
    /// Fills in what the activities leave open from the module-wide options.
    pub fn into_main_config(self) -> (res: TemplateConfigMain)
        ensures
            res@ == self@.into_main_config(),
    {
        let ghost incoming = self@;
        let ghost target = incoming.into_main_config().windows;
        let ghost all = self.windows@;
        let main_conf = TemplateConfig {
            template_field: self.template_field,
            template_subconfig: self.template_subconfig,
        };
        let mut windows: Vec<(String, Vec<TemplateConfig>)> = Vec::new();
        for window in it: self.windows
            invariant
                it.seq() == all,
                main_conf@ == incoming.default_conf(),
                incoming.windows == override_window_views(all),
                target == incoming.into_main_config().windows,
                window_views(windows@) == target.take(it.index() as int),
        {
            let ghost taken = it.index() as int;
            let ghost before_windows = windows@;
            let (name, stated) = window;
            let ghost stated_all = stated@;
            let ghost merged = override_views(stated_all).map_values(
                |config: OverrideView| config.into_config(main_conf@),
            );
            let mut configs: Vec<TemplateConfig> = Vec::new();
            for opt_conf in inner: stated
                invariant
                    inner.seq() == stated_all,
                    merged == override_views(stated_all).map_values(
                        |config: OverrideView| config.into_config(main_conf@),
                    ),
                    config_views(configs@) == merged.take(inner.index() as int),
            {
                let ghost before_configs = configs@;
                let conf = opt_conf.into_config(&main_conf);
                configs.push(conf);
                proof {
                    assert(config_views(configs@) =~= config_views(before_configs).push(conf@));
                    assert(merged.take(inner.index() + 1) =~= merged.take(
                        inner.index() as int,
                    ).push(conf@));
                }
            }
            assert(merged.take(stated_all.len() as int) =~= merged);
            let ghost entry = (name@, config_views(configs@));
            windows.push((name, configs));
            proof {
                assert(window_views(windows@) =~= window_views(before_windows).push(entry));
                assert(incoming.windows[taken] == (name@, override_views(stated_all)));
                assert(target[taken] == entry);
                assert(target.take(taken + 1) =~= target.take(taken).push(entry));
            }
        }
        assert(target.take(all.len() as int) =~= target);
        TemplateConfigMain {
            template_field: main_conf.template_field,
            template_subconfig: main_conf.template_subconfig,
            windows,
        }
    }
}

/// Why an incoming configuration does not take effect.
#[derive(Debug)]
pub enum ConfigError {
    /// The text could not be read as a configuration; the message says why.
    Parse(String),
    /// The text was read, but it configures the named window twice.
    DuplicateWindow(String),
}

impl DeTemplateConfigMain {
    /// The first window that bears the name of an earlier one, `None` where
    /// no window is configured twice.
    pub fn first_repeated_window(&self) -> (res: Option<usize>)
        ensures
            match res {
                Some(b) => self@.first_repeat(b as int),
                None => self@.distinct_windows(),
            },
    {
        let mut b: usize = 0;
        while b < self.windows.len()
            invariant
                b <= self.windows.len(),
                forall|c: int| 0 <= c < b ==> !self@.repeats(c),
            decreases self.windows.len() - b,
        {
            let mut a: usize = 0;
            while a < b
                invariant
                    a <= b < self.windows.len(),
                    forall|c: int| 0 <= c < b ==> !self@.repeats(c),
                    forall|e: int| 0 <= e < a ==> (#[trigger] self@.windows[e]).0
                        != self@.windows[b as int].0,
                decreases b - a,
            {
                if self.windows[a].0 == self.windows[b].0 {
                    assert(self@.windows[a as int].0 == self@.windows[b as int].0);
                    return Some(b);
                }
                a += 1;
            }
            b += 1;
        }
        proof {
            assert forall|a: int, c: int| 0 <= a < c < self@.windows.len() implies (
            #[trigger] self@.windows[a]).0 != (#[trigger] self@.windows[c]).0 by {
                assert(!self@.repeats(c));
            }
        }
        None
    }
}

impl TemplateConfigMain {
    /// Whether an activity is configured in some window.
    pub fn has_activity(&self) -> (res: bool)
        ensures
            res == (self@.activity_count() >= 1),
    {
        let mut k: usize = 0;
        while k < self.windows.len()
            invariant
                k <= self.windows.len(),
                forall|j: int| 0 <= j < k ==> (#[trigger] self@.windows[j]).1.len() == 0,
            decreases self.windows.len() - k,
        {
            assert(self@.windows[k as int].1.len() == self.windows[k as int].1@.len());
            if self.windows[k].1.len() > 0 {
                proof {
                    lemma_count_activities(self@.windows);
                }
                return true;
            }
            k += 1;
        }
        proof {
            lemma_count_activities(self@.windows);
        }
        false
    }

    /// Where the first window of the stand-in name stands, if there is one.
    fn default_window_position(&self) -> (res: Option<usize>)
        ensures
            match res {
                Some(k) => self@.find_window(default_window()) == Some(k as int) && k
                    < self.windows.len() && self.windows[k as int].0@ == default_window(),
                None => self@.find_window(default_window()) is None,
            },
    {
        proof {
            lemma_find_window(self@, default_window());
        }
        let mut k: usize = 0;
        while k < self.windows.len()
            invariant
                k <= self.windows.len(),
                forall|j: int| 0 <= j < k ==> (#[trigger] self@.windows[j]).0 != default_window(),
            decreases self.windows.len() - k,
        {
            assert(self@.windows[k as int].0 == self.windows[k as int].0@);
            if self.windows[k].0.as_str().is_empty() {
                proof {
                    assert(self@.windows[k as int].0 =~= default_window());
                    lemma_find_window(self@, default_window());
                }
                return Some(k);
            }
            k += 1;
        }
        proof {
            lemma_find_window(self@, default_window());
        }
        None
    }

    /// Makes sure that an activity is configured, so that the module is
    /// never left without one. Where none is configured, in no window or
    /// only in windows without activities, one activity with the module-wide
    /// options is put into the stand-in window, which is added behind the
    /// others where it is not there.
    pub fn ensure_default_window(&mut self)
        ensures
            final(self)@ == old(self)@.with_default_window(),
            final(self)@.activity_count() >= 1,
    {
        proof {
            lemma_with_default_window(self@);
        }
        if self.has_activity() {
            return ;
        }
        let child = self.default_conf();
        let mut configs: Vec<TemplateConfig> = Vec::new();
        configs.push(child);
        let ghost stand_in = old(self)@.stand_in();
        assert(config_views(configs@) =~= stand_in.1);
        match self.default_window_position() {
            Some(k) => {
                let (name, _) = self.windows.remove(k);
                self.windows.insert(k, (name, configs));
                proof {
                    let now = self@.windows;
                    let want = old(self)@.windows.update(k as int, stand_in);
                    assert(now.len() == want.len());
                    assert forall|j: int| 0 <= j < now.len() implies now[j] == want[j] by {
                        if j != k {
                            assert(self.windows@[j] == old(self).windows@[j]);
                        }
                    }
                    assert(now =~= want);
                }
            },
            None => {
                self.windows.push((String::new(), configs));
                assert(self@.windows =~= old(self)@.windows.push(stand_in));
            },
        }
    }
}

/// Turns what came in into the configuration that takes effect.
///
/// `parsed` is the incoming configuration as it was read, or the message of
/// the reader that could not read it. A configuration that names a window
/// twice is refused with the first name that comes a second time. One that
/// takes effect configures at least one activity: where it states none, the
/// stand-in window holds one.
pub fn ingest(parsed: Result<DeTemplateConfigMain, String>) -> (res: Result<
    TemplateConfigMain,
    ConfigError,
>)
    ensures
        match parsed {
            Err(message) => res matches Err(ConfigError::Parse(text)) && text == message,
            Ok(incoming) => if incoming@.distinct_windows() {
                res matches Ok(config) && config@ == incoming@.ingest() && config@.activity_count()
                    >= 1
            } else {
                res matches Err(ConfigError::DuplicateWindow(name)) && exists|b: int|
                    incoming@.first_repeat(b) && name@ == (#[trigger] incoming@.windows[b]).0
            },
        },
{
    match parsed {
        Err(message) => Err(ConfigError::Parse(message)),
        Ok(incoming) => match incoming.first_repeated_window() {
            Some(b) => {
                let name = incoming.windows[b].0.clone();
                proof {
                    assert(incoming@.repeats(b as int));
                    let a = choose|a: int|
                        0 <= a < b && (#[trigger] incoming@.windows[a]).0
                            == incoming@.windows[b as int].0;
                    assert(incoming@.windows[a].0 == incoming@.windows[b as int].0);
                    assert(name@ == incoming@.windows[b as int].0);
                }
                Err(ConfigError::DuplicateWindow(name))
            },
            None => {
                let mut config = incoming.into_main_config();
                config.ensure_default_window();
                Ok(config)
            },
        },
    }
}

/// A configuration written out in full and filled in again is the same
/// configuration.
pub proof fn lemma_explicit_round_trip(config: MainConfigView)
    ensures
        config.explicit().into_main_config() == config,
        config.explicit().distinct_windows() == config.distinct_windows(),
        config.explicit().ingest() == config.with_default_window(),
{
    let back = config.explicit().into_main_config();
    assert(back.windows =~= config.windows) by {
        assert forall|k: int| 0 <= k < config.windows.len() implies back.windows[k]
            == config.windows[k] by {
            assert(back.windows[k].1 =~= config.windows[k].1);
        }
    }
}

/// The built-in configuration, written out and read in again, is the
/// configuration that a module starts with.
pub proof fn lemma_builtin_round_trip()
    ensures
        builtin_main_config().explicit().distinct_windows(),
        builtin_main_config().explicit().ingest() == builtin_main_config().with_default_window(),
{
    lemma_explicit_round_trip(builtin_main_config());
}

} // verus!
