use yal::command::{collect_commands, launch_steps, list_switch_targets, LaunchStep, AppInfo, Command, CommandKind, WindowTarget};
use yal::focus::{
    after_raise, title_target, TitleFocusError, TitleFocusStep,
    activate_steps, hide_steps, ActivateStep, FocusState, HideBehavior, HideStep,
    find_current_display_space, find_current_window, first_hit, focus_switch_target, match_window_number,
    match_window_title, plan_focus_app, plan_focus_window, plan_space_switch, DisplaySpace, SwitchAction, SwitchStep,
};
use yal::sky::{
    assemble_display_spaces, classify_window_mask, RawDisplay, RawSpace, group_by_space, select_by_kind, DisplayId, DisplaySpaces, SpaceId, SpaceRecord, SpaceType, Window, WindowId,
    WindowInfo, WindowKindFilter,
};
use yal::theme::Theme;
use yal::tree::{ApplicationTree, DisplayNode, SearchParam, SearchResult, SpaceNode, WindowNode};

fn wnode(id: i64, pid: i32, app: &str, title: Option<&str>, focused: bool) -> WindowNode {
    WindowNode { id: WindowId(id), title: title.map(|t| t.to_string()), pid, app_name: app.to_string(), is_focused: focused }
}

fn sample_tree() -> ApplicationTree {
    ApplicationTree {
        displays: vec![
            DisplayNode {
                id: DisplayId("D1".to_string()),
                spaces: vec![
                    SpaceNode { id: SpaceId(10), index: 0, windows: vec![wnode(1, 100, "Term", Some("sh"), false)] },
                    SpaceNode { id: SpaceId(11), index: 1, windows: vec![wnode(2, 200, "Web", None, true)] },
                ],
            },
            DisplayNode {
                id: DisplayId("D2".to_string()),
                spaces: vec![SpaceNode {
                    id: SpaceId(20),
                    index: 12,
                    windows: vec![wnode(3, 100, "Term", Some("log"), false), wnode(4, 300, "Mail", None, false)],
                }],
            },
        ],
    }
}

fn info(id: i64, parent: u32, level: i32, tags: u64, attrs: u64) -> WindowInfo {
    WindowInfo { window_id: id, parent_window_id: parent, level, tags, attributes: attrs, space_id: SpaceId(1) }
}

#[test]
fn window_kinds() {
    let app = info(1, 0, 0, 0, 2);
    assert_eq!(classify_window_mask(&app).bits(), WindowKindFilter::app().bits());
    let titled = info(2, 0, 0, 0x0400_0000_0000_0000, 0);
    assert_eq!(classify_window_mask(&titled).bits(), 1);
    let utility = info(3, 0, 3, 0, 0);
    assert_eq!(classify_window_mask(&utility).bits(), WindowKindFilter::utility().bits());
    let full = info(4, 0, 20, 0, 0);
    assert_eq!(classify_window_mask(&full).bits(), WindowKindFilter::fullscreen().bits());
    let child = info(5, 9, 0, 0, 2);
    assert_eq!(classify_window_mask(&child).bits(), WindowKindFilter::other().bits());
    let minimized_app = info(6, 0, 0, 0x1000_0000_0000_0000, 2);
    assert_eq!(classify_window_mask(&minimized_app).bits(), 1 | 8);
    let picked = select_by_kind(&vec![app, utility, full, child], WindowKindFilter::app().union(WindowKindFilter::fullscreen()));
    assert_eq!(picked.iter().map(|w| w.window_id).collect::<Vec<_>>(), vec![1, 4]);
    assert_eq!(select_by_kind(&vec![app, child], WindowKindFilter::empty()).len(), 2);
    assert!(WindowKindFilter::all().contains(WindowKindFilter::minimized()));
    assert_eq!(SpaceType::from_raw(0), SpaceType::User);
}

#[test]
fn tree_flatten_search_and_text() {
    let tree = sample_tree();
    let flat = tree.flatten();
    assert_eq!(flat.iter().map(|r| r.window_id.0).collect::<Vec<_>>(), vec![1, 2, 3, 4]);
    assert_eq!(flat[2].space_index, 12);
    assert_eq!(tree.search(SearchParam::ByPid(100)).len(), 2);
    assert_eq!(tree.search(SearchParam::ByFocused)[0].window_id, WindowId(2));
    assert_eq!(tree.search(SearchParam::ByDisplayId(DisplayId("D2".to_string()))).len(), 2);
    assert_eq!(tree.search(SearchParam::BySpaceId(SpaceId(11))).len(), 1);
    assert!(tree.search(SearchParam::ByWindowId(WindowId(99))).is_empty());
    assert_eq!(tree.find_display_from_space(SpaceId(20)), Some(DisplayId("D2".to_string())));
    assert_eq!(tree.find_display_from_space(SpaceId(99)), None);
    assert_eq!(tree.find_space_index(SpaceId(11)), Some(1));
    assert_eq!(tree.find_space_index(SpaceId(99)), None);
    assert_eq!(
        flat[0].describe(),
        "Display ID: D1, Space ID: 10, Window ID: 1, PID: 100, App: Term, Title: sh, Focused: false"
    );
    let text = tree.describe();
    assert!(text.starts_with("Display ID: D1\n  Space ID: 10\n    Window ID: 1, PID: 100, App: Term, Title: sh, Focused: false\n"));
    assert!(text.contains("    Window ID: 2, PID: 200, App: Web, Title: <No Title>, Focused: true\n"));
    assert!(text.ends_with("Display ID: D2\n  Space ID: 20\n    Window ID: 3, PID: 100, App: Term, Title: log, Focused: false\n    Window ID: 4, PID: 300, App: Mail, Title: <No Title>, Focused: false\n"));
}

#[test]
fn reaching_spaces() {
    let tree = sample_tree();
    let here = DisplaySpace { display_id: DisplayId("D1".to_string()), space_id: SpaceId(10) };
    assert_eq!(here.describe(), "CurrentDisplaySpace:\n  display_id: D1\n  space_id: 10\n");
    let same = plan_space_switch(&tree, SpaceId(10), &here);
    assert!(same.reached && same.steps.is_empty());
    let next = plan_space_switch(&tree, SpaceId(11), &here);
    assert_eq!(next.steps, vec![SwitchStep::PressCtrlDigit(2), SwitchStep::Pause(200)]);
    assert!(next.reached);
    let far = plan_space_switch(&tree, SpaceId(20), &here);
    assert_eq!(
        far.steps,
        vec![
            SwitchStep::FocusDisplayCenter(DisplayId("D2".to_string())),
            SwitchStep::Pause(40),
            SwitchStep::PressCtrlDigit(10),
            SwitchStep::Pause(250),
            SwitchStep::PressCtrlRight,
            SwitchStep::PressCtrlRight,
            SwitchStep::PressCtrlRight,
        ]
    );
    let unknown = plan_space_switch(&tree, SpaceId(99), &here);
    assert!(!unknown.reached && unknown.steps.is_empty());
    let lost = DisplaySpace { display_id: DisplayId("D9".to_string()), space_id: SpaceId(77) };
    let partial = plan_space_switch(&tree, SpaceId(11), &lost);
    assert_eq!(partial.steps, vec![SwitchStep::FocusDisplayCenter(DisplayId("D1".to_string())), SwitchStep::Pause(40)]);
    assert!(!partial.reached);
}

#[test]
fn focusing_windows_and_apps() {
    let tree = sample_tree();
    let here = DisplaySpace { display_id: DisplayId("D1".to_string()), space_id: SpaceId(10) };
    let p = plan_focus_window(&tree, WindowId(4), &here).unwrap();
    assert_eq!((p.pid, p.window_id), (300, WindowId(4)));
    assert!(p.switch.reached);
    assert!(plan_focus_window(&tree, WindowId(42), &here).is_none());
    let a = plan_focus_app(&tree, "Term", &here).unwrap();
    assert_eq!((a.pid, a.window_id), (100, WindowId(1)));
    assert!(a.switch.steps.is_empty());
    assert!(plan_focus_app(&tree, "Nope", &here).is_none());
}

#[test]
fn switch_target_actions() {
    let titled = WindowTarget { app_name: "A".to_string(), title: Some("doc".to_string()), pid: 5, window_id: 1 };
    assert_eq!(focus_switch_target(&titled, None), Some(SwitchAction::FocusByTitle { pid: 5, title: "doc".to_string() }));
    assert_eq!(focus_switch_target(&titled, Some(true)), None);
    assert_eq!(focus_switch_target(&titled, Some(false)), Some(SwitchAction::ActivateApp(5)));
    let bare = WindowTarget { app_name: "A".to_string(), title: None, pid: 6, window_id: 1 };
    assert_eq!(focus_switch_target(&bare, None), Some(SwitchAction::ActivateApp(6)));
    assert_eq!(match_window_number(&vec![None, Some(3), Some(7), Some(7)], 7), Some(2));
    assert_eq!(match_window_number(&vec![Some(1)], 7), None);
    assert_eq!(match_window_title(&vec![Some("a".to_string()), None, Some("b".to_string())], "b"), Some(2));
    assert_eq!(match_window_title(&vec![], "b"), None);
}

fn rec(id: u64) -> SpaceRecord {
    SpaceRecord { id: SpaceId(id), kind: SpaceType::User, is_current_on_display: false }
}

fn winfo(id: i64) -> WindowInfo {
    info(id, 0, 0, 0, 2)
}

fn win(id: i64, pid: i32) -> Window {
    Window { info: winfo(id), pid: Some(pid), owner_name: None, title: None }
}

#[test]
fn current_display_space_and_window() {
    let displays = vec![
        DisplaySpaces { display_identifier: DisplayId("A".to_string()), current: SpaceId(1), spaces: vec![rec(1), rec(2)] },
        DisplaySpaces { display_identifier: DisplayId("B".to_string()), current: SpaceId(3), spaces: vec![rec(3)] },
    ];
    let visible = vec![vec![Some(vec![winfo(10)]), None], vec![Some(vec![winfo(30)])]];
    let titled = vec![vec![Some(vec![win(10, 1)]), None], vec![Some(vec![win(30, 7)])]];
    let dup = |d: &Vec<DisplaySpaces>| d.iter().map(|x| x.duplicate()).collect::<Vec<_>>();
    let r = find_current_display_space(dup(&displays), Some((7, 30)), true, &visible, &titled);
    assert_eq!((r.display_identifier.0.as_str(), r.current), ("B", SpaceId(3)));
    let by_pid = find_current_display_space(dup(&displays), Some((1, 999)), true, &visible, &titled);
    assert_eq!((by_pid.display_identifier.0.as_str(), by_pid.current), ("A", SpaceId(1)));
    let fallback = find_current_display_space(dup(&displays), Some((7, 30)), false, &visible, &titled);
    assert_eq!(fallback.display_identifier.0, "A");
    let none = find_current_display_space(vec![], None, true, &vec![], &vec![]);
    assert_eq!((none.display_identifier.0.as_str(), none.current, none.spaces.len()), ("<unknown>", SpaceId(0), 0));
    assert_eq!(find_current_window(Some((7, 30)), true, &Some(vec![winfo(30)]), &None), Some((7, WindowId(30))));
    assert_eq!(find_current_window(Some((7, 31)), true, &Some(vec![winfo(30)]), &Some(vec![win(30, 8), win(32, 7)])), Some((7, WindowId(32))));
    assert_eq!(find_current_window(Some((7, 31)), false, &None, &None), None);
    assert_eq!(first_hit(&vec![vec![false], vec![false, true]]), Some((1, 1)));
}

#[test]
fn palette_commands() {
    let tree = sample_tree();
    let targets = list_switch_targets(&tree);
    assert_eq!(targets.len(), 4);
    assert_eq!(targets[0], WindowTarget { app_name: "Term".to_string(), title: Some("sh".to_string()), pid: 100, window_id: 1 });
    let apps = vec![AppInfo { name: "Zed".to_string(), path: "/z".to_string() }];
    let themes = vec![
        Theme { name: Some("dark".to_string()), bg_color: None, fg_color: None, bg_font_color: None, fg_font_color: None },
        Theme { name: None, bg_color: None, fg_color: None, bg_font_color: None, fg_font_color: None },
    ];
    let cmds = collect_commands(&apps, &tree.flatten(), &themes);
    assert_eq!(cmds.len(), 1 + 4 + 1);
    assert_eq!(cmds[0].name(), "Zed");
    assert_eq!(cmds[0].prefix(), "app");
    assert_eq!(cmds[1].to_display_string(), "switch:Term - sh");
    assert_eq!(cmds[2].name(), "Web");
    assert_eq!(cmds[5], Command::Theme("dark".to_string()));
    assert!(CommandKind::Theme.is_kind(&cmds[5]));
    assert!(!CommandKind::App.is_kind(&cmds[5]));
    let plugin = Command::Plugin { plugin_name: "p".to_string(), command_name: "c".to_string(), args: None };
    assert_eq!(plugin.to_display_string(), "plugin:p - c");
}

#[test]
fn search_results_copy() {
    let r = SearchResult {
        display_id: DisplayId("D".to_string()),
        space_id: SpaceId(1),
        space_index: 0,
        window_id: WindowId(2),
        title: None,
        pid: 3,
        app_name: "x".to_string(),
        is_focused: false,
    };
    assert_eq!(r.duplicate(), r);
}

#[test]
fn filters_combine() {
    let both = WindowKindFilter::app().union(WindowKindFilter::utility());
    assert!(both.contains(WindowKindFilter::app()));
    assert!(both.contains(WindowKindFilter::utility()));
    assert!(!both.contains(WindowKindFilter::other()));
    let common = both.intersection(WindowKindFilter::app());
    assert_eq!(common.bits(), 1);
    assert!(both.contains(common));
    assert!(WindowKindFilter::empty().is_empty());
}

#[test]
fn windows_grouped_by_space() {
    let displays = vec![
        DisplaySpaces { display_identifier: DisplayId("A".to_string()), current: SpaceId(1), spaces: vec![rec(1), rec(2)] },
        DisplaySpaces { display_identifier: DisplayId("B".to_string()), current: SpaceId(3), spaces: vec![rec(3)] },
    ];
    let groups = group_by_space(&displays, vec![vec![vec![winfo(10)], vec![]], vec![vec![winfo(30), winfo(31)]]]);
    assert_eq!(groups.len(), 3);
    assert_eq!((groups[0].display_identifier.0.as_str(), groups[0].space.id, groups[0].windows.len()), ("A", SpaceId(1), 1));
    assert_eq!((groups[1].display_identifier.0.as_str(), groups[1].space.id, groups[1].windows.len()), ("A", SpaceId(2), 0));
    assert_eq!((groups[2].display_identifier.0.as_str(), groups[2].space.id, groups[2].windows.len()), ("B", SpaceId(3), 2));
}

#[test]
fn launching() {
    let steps = launch_steps(&AppInfo { name: "Screenshot".to_string(), path: "/s".to_string() });
    assert_eq!(
        steps,
        vec![
            LaunchStep::Open("/s".to_string()),
            LaunchStep::Pause(500),
            LaunchStep::RefreshTree,
            LaunchStep::FocusApp("Screenshot".to_string()),
            LaunchStep::HideLauncher,
        ]
    );
    assert_eq!(launch_steps(&AppInfo { name: "Zed".to_string(), path: "/z".to_string() }).len(), 4);
}

#[test]
fn displays_without_identifier_or_current_space_are_skipped() {
    let raw = vec![
        Some(RawDisplay {
            identifier: Some("D-1".to_string()),
            current_id64: Some(7),
            spaces: vec![
                RawSpace { id64: Some(7), kind: SpaceType::User },
                RawSpace { id64: None, kind: SpaceType::User },
                RawSpace { id64: Some(-1), kind: SpaceType::Fullscreen },
            ],
        }),
        None,
        Some(RawDisplay { identifier: None, current_id64: Some(3), spaces: vec![] }),
        Some(RawDisplay { identifier: Some("D-4".to_string()), current_id64: None, spaces: vec![] }),
    ];
    let out = assemble_display_spaces(&raw);
    assert_eq!(out.len(), 1);
    assert_eq!(out[0].display_identifier, DisplayId("D-1".to_string()));
    assert_eq!(out[0].current, SpaceId(7));
    assert_eq!(
        out[0].spaces,
        vec![
            SpaceRecord { id: SpaceId(7), kind: SpaceType::User, is_current_on_display: true },
            SpaceRecord { id: SpaceId(u64::MAX), kind: SpaceType::Fullscreen, is_current_on_display: false },
        ]
    );
    assert!(assemble_display_spaces(&vec![]).is_empty());
}

#[test]
fn hiding_hides_then_focuses() {
    let head = vec![HideStep::HideWindow, HideStep::DeactivateApp];
    assert_eq!(hide_steps(&HideBehavior::FocusPrevious, &None, Some(SpaceId(1))), head);
    let mut new = head.clone();
    new.push(HideStep::Activate(ActivateStep::MakeFrontmost(3)));
    new.push(HideStep::Activate(ActivateStep::RaiseWindow { pid: 3, window_id: WindowId(9) }));
    assert_eq!(hide_steps(&HideBehavior::FocusNew { pid: 3, window_id: 9 }, &None, None), new);
    let prev = Some(FocusState { display_id: DisplayId("D".to_string()), pid: 7, window_id: WindowId(5), space_id: SpaceId(2) });
    let mut back = head.clone();
    back.push(HideStep::Activate(ActivateStep::SelectSpace(SpaceId(2))));
    back.push(HideStep::Activate(ActivateStep::MakeFrontmost(7)));
    back.push(HideStep::Activate(ActivateStep::RaiseWindow { pid: 7, window_id: WindowId(5) }));
    assert_eq!(hide_steps(&HideBehavior::FocusPrevious, &prev, Some(SpaceId(1))), back);
    assert_eq!(hide_steps(&HideBehavior::FocusPrevious, &prev, Some(SpaceId(2))), {
        let mut v = head.clone();
        v.extend(back[3..].iter().copied());
        v
    });
}

#[test]
fn activation_switches_space_only_when_needed() {
    let focus = FocusState { display_id: DisplayId("D".to_string()), pid: 77, window_id: WindowId(5), space_id: SpaceId(2) };
    let tail = vec![ActivateStep::MakeFrontmost(77), ActivateStep::RaiseWindow { pid: 77, window_id: WindowId(5) }];
    assert_eq!(activate_steps(Some(SpaceId(2)), &focus), tail);
    assert_eq!(activate_steps(None, &focus), tail);
    let mut with_switch = vec![ActivateStep::SelectSpace(SpaceId(2))];
    with_switch.extend(tail);
    assert_eq!(activate_steps(Some(SpaceId(8)), &focus), with_switch);
}

#[test]
fn focusing_by_title() {
    let titles = Some(vec![None, Some("a".to_string()), Some("b".to_string()), Some("b".to_string())]);
    assert_eq!(title_target(true, &titles, "b"), Ok(2));
    assert_eq!(title_target(true, &titles, "z"), Err(TitleFocusError::TitleNotFound));
    assert_eq!(title_target(true, &None, "b"), Err(TitleFocusError::WindowsUnreadable));
    assert_eq!(title_target(false, &titles, "b"), Err(TitleFocusError::NoApplication));
    assert_eq!(TitleFocusError::TitleNotFound.message(), "Window title not found via AX");
    assert_eq!(TitleFocusError::NoApplication.message(), "AXUIElementCreateApplication returned null");
    assert_eq!(after_raise(false), Err(TitleFocusError::RaiseFailed));
    assert_eq!(TitleFocusError::RaiseFailed.message(), "AXRaise failed");
    let steps = after_raise(true).unwrap();
    assert_eq!(steps.len(), 6);
    assert_eq!(steps[0], TitleFocusStep::SetMain);
    assert_eq!(steps[5], TitleFocusStep::SetSystemFocusedApp);
}
