use paperdoll::editor::{Confirm, EditorTab, StatusKind};
use paperdoll::model::{Animation, Easing, EulerDeg, JointTarget, KeyframeSpec, Pose};
use paperdoll::named_map::NamedMap;
use paperdoll::session::{
    repoint_pose_references, set_joint_euler, AnimationEditorState, EditorSession,
    PoseEditorState, PreviewTarget, PLAY_MODE_STATUS,
};
use paperdoll::skeleton::Skeleton;

fn key(s: &str) -> Vec<char> {
    s.chars().collect()
}

fn e(z: f32) -> EulerDeg<f32> {
    EulerDeg { x: 0.0, y: 0.0, z }
}

fn pose(name: &str) -> Pose<f32> {
    Pose {
        name: name.into(),
        description: None,
        joints: NamedMap::new(),
        camera: None,
        expressions: NamedMap::new(),
        hold_joints: false,
    }
}

fn pose_library(names: &[&str]) -> NamedMap<Pose<f32>> {
    let mut m = NamedMap::new();
    for n in names {
        m.insert(key(n), pose(n));
    }
    m
}

fn animation(name: &str) -> Animation<f32> {
    Animation {
        name: name.into(),
        description: Some("d".into()),
        looping: true,
        vrm_local_rotations: false,
        play_automatically: false,
        keyframes: Vec::new(),
    }
}

fn animation_library(names: &[&str]) -> NamedMap<Animation<f32>> {
    let mut m = NamedMap::new();
    for n in names {
        m.insert(key(n), animation(n));
    }
    m
}

fn kf(pose: Option<&str>, duration_ms: u32) -> KeyframeSpec<f32> {
    KeyframeSpec {
        pose: pose.map(|p| p.to_string()),
        joints: None,
        camera: None,
        expressions: None,
        hold: None,
        duration_ms,
        easing: Easing::Linear,
    }
}

#[test]
fn fresh_session_has_default_drafts() {
    let s: EditorSession<f32> = EditorSession::new(true);
    assert!(s.open);
    assert_eq!(s.tab, EditorTab::Pose);
    assert_eq!(s.pose.draft.name, "new_pose");
    assert!(s.pose.draft.joints.is_empty());
    assert!(s.pose.checkpoint.is_none());
    assert_eq!(s.animation.draft.name, "new_animation");
    assert_eq!(s.animation.draft.keyframes.len(), 1);
    assert_eq!(s.animation.draft.keyframes[0].pose.as_deref(), Some("idle"));
    assert_eq!(s.animation.draft.keyframes[0].duration_ms, 400);
    assert_eq!(s.animation.draft.keyframes[0].easing, Easing::EaseInOut);
    assert_eq!(s.status.status, PLAY_MODE_STATUS);
    assert_eq!(s.status.kind, StatusKind::Info);
    assert!(s.pending_confirm.is_none());
    assert!(!EditorSession::<f32>::new(false).open);
}

#[test]
fn checkpoints_copy_the_draft() {
    let mut p: PoseEditorState<f32> = PoseEditorState::new();
    p.draft.name = "wave".into();
    p.checkpoint();
    assert_eq!(p.checkpoint.as_ref().map(|c| c.name.as_str()), Some("wave"));
    let mut a: AnimationEditorState<f32> = AnimationEditorState::new();
    a.checkpoint();
    assert_eq!(a.checkpoint.as_ref().map(|c| c.keyframes.len()), Some(1));
}

#[test]
fn joint_edits_follow_the_visible_tab() {
    let poses = pose_library(&["idle"]);
    let mut s: EditorSession<f32> = EditorSession::new(true);
    s.joints.symmetrical = true;
    s.set_active_joint_euler("left_shoulder", e(30.0), e(-30.0));
    assert_eq!(s.pose.draft.joints.get(&key("left_shoulder")).unwrap().rotation_deg, Some(e(30.0)));
    assert_eq!(s.pose.draft.joints.get(&key("right_shoulder")).unwrap().rotation_deg, Some(e(-30.0)));
    assert_eq!(s.euler_for_active_joint(&poses, "left_shoulder"), Some(e(30.0)));
    assert!(s.joint_editing_active());

    s.tab = EditorTab::Animation;
    s.animation.draft.keyframes.push(kf(Some("idle"), 250));
    s.animation.selected_keyframe = 1;
    s.animation.playing = true;
    s.joints.symmetrical = false;
    s.set_active_joint_euler("head", e(10.0), e(-10.0));
    assert_eq!(s.animation.playhead_ms, 250);
    assert!(!s.animation.playing);
    let k = &s.animation.draft.keyframes[1];
    assert_eq!(k.joints.as_ref().unwrap().get(&key("head")).unwrap().rotation_deg, Some(e(10.0)));
    assert!(s.animation.draft.keyframes[0].joints.is_none());
    assert_eq!(s.euler_for_active_joint(&poses, "head"), Some(e(10.0)));
    assert_eq!(s.euler_for_active_joint(&poses, "neck"), None);
    assert!(s.joint_editing_active());
    s.animation.draft.vrm_local_rotations = true;
    assert!(!s.joint_editing_active());

    s.animation.selected_keyframe = 7;
    s.set_active_joint_euler("head", e(5.0), e(-5.0));
    assert_eq!(s.animation.playhead_ms, 250);
    assert_eq!(s.euler_for_active_joint(&poses, "head"), None);
}

#[test]
fn saving_an_unnamed_pose_is_refused() {
    let poses = pose_library(&["wave"]);
    let mut s: EditorSession<f32> = EditorSession::new(true);
    s.pose.draft.name = "   ".into();
    assert!(!s.request_pose_save(&poses));
    assert_eq!(s.status.status, "Name the pose before saving.");
    assert_eq!(s.status.kind, StatusKind::Error);
    assert_eq!(s.status.history, vec![PLAY_MODE_STATUS.to_string()]);
}

#[test]
fn saving_over_another_library_pose_asks_first() {
    let poses = pose_library(&["wave"]);
    let mut s: EditorSession<f32> = EditorSession::new(true);
    s.pose.draft.name = "  wave ".into();
    assert!(!s.request_pose_save(&poses));
    assert_eq!(s.pose.draft.name, "wave");
    assert!(matches!(&s.pending_confirm, Some(Confirm::OverwritePose { name }) if name == "wave"));

    let mut own: EditorSession<f32> = EditorSession::new(true);
    own.pose.draft.name = "wave".into();
    own.pose.loaded_name = Some("wave".into());
    assert!(own.request_pose_save(&poses));
    assert!(own.pending_confirm.is_none());

    let mut fresh: EditorSession<f32> = EditorSession::new(true);
    fresh.pose.draft.name = "shrug".into();
    assert!(fresh.request_pose_save(&poses));
}

#[test]
fn saving_animations_checks_the_animation_library() {
    let animations = animation_library(&["say_yes"]);
    let mut s: EditorSession<f32> = EditorSession::new(true);
    s.animation.draft.name = "say_yes".into();
    assert!(!s.request_animation_save(&animations));
    assert!(matches!(&s.pending_confirm, Some(Confirm::OverwriteAnimation { name }) if name == "say_yes"));
    s.animation.draft.name = "".into();
    assert!(!s.request_animation_save(&animations));
    assert_eq!(s.status.status, "Name the animation before saving.");
    s.animation.draft.name = "say_no".into();
    assert!(s.request_animation_save(&animations));
}

#[test]
fn saved_drafts_become_the_loaded_entry() {
    let mut s: EditorSession<f32> = EditorSession::new(true);
    s.pose.draft.name = "wave".into();
    s.note_pose_saved("assets/poses/wave.yaml", 0);
    assert_eq!(s.pose.loaded_name.as_deref(), Some("wave"));
    assert!(s.pose.checkpoint.is_some());
    assert_eq!(s.status.status, "Saved pose → assets/poses/wave.yaml");
    assert_eq!(s.status.kind, StatusKind::Success);

    s.note_pose_saved("p.yaml", 2);
    assert_eq!(
        s.status.status,
        "Saved pose → p.yaml. 2 animation(s) reference 'wave' and still hold the old snapshot — use 'Used by animations → Re-save'."
    );

    s.animation.draft.name = "wave_animation".into();
    s.note_animation_saved("a.yaml");
    assert_eq!(s.animation.loaded_name.as_deref(), Some("wave_animation"));
    assert_eq!(s.status.status, "Saved animation → a.yaml");
}

#[test]
fn pose_renames_are_checked_then_reported() {
    let poses = pose_library(&["wave", "idle"]);
    let mut s: EditorSession<f32> = EditorSession::new(true);
    assert_eq!(s.begin_pose_rename(&poses), None);
    assert_eq!(s.status.status, "Load a pose from the library before renaming.");

    s.pose.loaded_name = Some("wave".into());
    s.pose.draft.name = "wave".into();
    assert_eq!(s.begin_pose_rename(&poses), None);
    assert_eq!(s.status.status, "Name field is unchanged — nothing to rename.");
    assert_eq!(s.status.kind, StatusKind::Info);

    s.pose.draft.name = "idle".into();
    assert_eq!(s.begin_pose_rename(&poses), None);
    assert_eq!(s.status.status, "'idle' already exists — pick another name.");

    s.pose.draft.name = " hello ".into();
    assert_eq!(s.begin_pose_rename(&poses), Some("wave".to_string()));
    assert_eq!(s.pose.draft.name, "hello");

    s.finish_pose_rename("wave", 0);
    assert_eq!(s.pose.loaded_name.as_deref(), Some("hello"));
    assert_eq!(s.status.status, "Renamed 'wave' → 'hello'.");
    s.finish_pose_rename("wave", 3);
    assert_eq!(s.status.status, "Renamed 'wave' → 'hello' and updated 3 referencing animation(s).");
    assert_eq!(s.status.history.len(), 2);
}

#[test]
fn animation_renames_move_the_library_entry() {
    let mut animations = animation_library(&["a", "b"]);
    let mut s: EditorSession<f32> = EditorSession::new(true);
    s.animation.loaded_name = Some("gone".into());
    s.animation.draft.name = "c".into();
    assert_eq!(s.begin_animation_rename(&animations), None);
    assert_eq!(s.status.status, "'gone' is no longer in the library.");

    s.animation.loaded_name = Some("a".into());
    s.animation.draft.name = "b".into();
    assert_eq!(s.begin_animation_rename(&animations), None);
    assert_eq!(s.status.status, "'b' already exists — pick another name.");

    s.animation.draft.name = "c".into();
    assert_eq!(s.begin_animation_rename(&animations), Some("a".to_string()));
    s.finish_animation_rename("a", &mut animations);
    assert!(!animations.contains_key(&key("a")));
    let moved = animations.get(&key("c")).unwrap();
    assert_eq!(moved.name, "c");
    assert!(moved.looping);
    assert_eq!(moved.description.as_deref(), Some("d"));
    assert!(animations.contains_key(&key("b")));
    assert_eq!(s.animation.loaded_name.as_deref(), Some("c"));
    assert_eq!(s.status.status, "Renamed 'a' → 'c'.");
}

#[test]
fn deleting_reports_remaining_references() {
    let mut s: EditorSession<f32> = EditorSession::new(true);
    s.pose.loaded_name = Some("wave".into());
    s.pose.checkpoint();
    s.note_pose_deleted("wave", &[]);
    assert!(s.pose.loaded_name.is_none());
    assert!(s.pose.checkpoint.is_none());
    assert_eq!(s.status.status, "Deleted pose 'wave'.");
    assert_eq!(s.status.kind, StatusKind::Success);

    s.note_pose_deleted("idle", &["say_yes".to_string(), "wave_animation".to_string()]);
    assert_eq!(
        s.status.status,
        "Deleted pose 'idle' — WARNING: 2 animation(s) still reference it: say_yes, wave_animation."
    );
    assert_eq!(s.status.kind, StatusKind::Error);

    s.animation.loaded_name = Some("x".into());
    s.note_animation_deleted("y");
    assert_eq!(s.animation.loaded_name.as_deref(), Some("x"));
    s.note_animation_deleted("x");
    assert!(s.animation.loaded_name.is_none());
    assert_eq!(s.status.status, "Deleted animation 'x'.");
}

#[test]
fn repointing_only_touches_matching_references() {
    let mut ks = vec![kf(Some("wave"), 100), kf(Some("idle"), 200), kf(None, 300), kf(Some("wave"), 400)];
    repoint_pose_references(&mut ks, "wave", "hello");
    assert_eq!(ks[0].pose.as_deref(), Some("hello"));
    assert_eq!(ks[1].pose.as_deref(), Some("idle"));
    assert_eq!(ks[2].pose, None);
    assert_eq!(ks[3].pose.as_deref(), Some("hello"));
    assert_eq!(ks[3].duration_ms, 400);
}

#[test]
fn clearing_joints_and_mirrored_edits() {
    let mut s: EditorSession<f32> = EditorSession::new(true);
    s.pose.draft.joints.insert(key("head"), JointTarget { rotation_deg: Some(e(1.0)), rotation_quat: None, translation: None });
    s.clear_pose_joints();
    assert!(s.pose.draft.joints.is_empty());
    assert_eq!(s.status.status, "Cleared all joints from the pose draft.");

    let mut p = pose("p");
    set_joint_euler(&mut p, "right_elbow", e(20.0), e(-20.0), true);
    assert_eq!(p.joints.get(&key("left_elbow")).unwrap().rotation_deg, Some(e(-20.0)));
    set_joint_euler(&mut p, "head", e(3.0), e(-3.0), true);
    assert_eq!(p.joints.len(), 3);
}

#[test]
fn preview_transport_wraps_or_stops() {
    let mut a: AnimationEditorState<f32> = AnimationEditorState::new();
    a.playhead_ms = 100;
    a.playing = true;
    a.advance_preview(400, 50);
    assert_eq!((a.playhead_ms, a.playing), (150, true));
    a.playhead_ms = 390;
    a.advance_preview(400, 50);
    assert_eq!((a.playhead_ms, a.playing), (400, false));
    a.advance_preview(400, 50);
    assert_eq!((a.playhead_ms, a.playing), (400, false));
    a.playing = true;
    a.loop_playback = true;
    a.playhead_ms = 390;
    a.advance_preview(400, 50);
    assert_eq!((a.playhead_ms, a.playing), (40, true));
    a.playhead_ms = u32::MAX - 1;
    a.advance_preview(400, 50);
    assert_eq!(a.playhead_ms, u32::MAX % 400);
    a.advance_preview(0, 50);
    assert_eq!((a.playhead_ms, a.playing), (0, false));
}

#[test]
fn empty_pose_draft_is_seeded_from_idle_once() {
    let mut poses = pose_library(&["new_pose", "wave"]);
    let mut idle = pose("idle");
    idle.joints.insert(key("head"), JointTarget { rotation_deg: Some(e(4.0)), rotation_quat: None, translation: None });
    poses.insert(key("idle"), idle);
    let mut s: EditorSession<f32> = EditorSession::new(true);
    assert!(s.auto_fill_pose_draft(&poses, 77));
    assert_eq!(s.pose.draft.name, "new_pose_2");
    assert_eq!(s.pose.draft.joints.len(), 1);
    assert!(s.pose.auto_fill_done);
    assert!(s.pose.checkpoint.is_some());
    s.pose.draft.joints = NamedMap::new();
    assert!(!s.auto_fill_pose_draft(&poses, 77));
    assert!(s.pose.draft.joints.is_empty());

    let mut t: EditorSession<f32> = EditorSession::new(true);
    t.tab = EditorTab::Animation;
    assert!(!t.auto_fill_pose_draft(&poses, 77));
    let mut u: EditorSession<f32> = EditorSession::new(true);
    assert!(!u.auto_fill_pose_draft(&pose_library(&["wave"]), 77));
}

#[test]
fn preview_shows_the_visible_draft_or_reports_why_not() {
    let sk = Skeleton::humanoid_default();
    let poses = pose_library(&["idle"]);
    let mut s: EditorSession<f32> = EditorSession::new(true);
    s.animation.playing = true;
    s.pose.draft.joints.insert(key("head"), JointTarget { rotation_deg: Some(e(1.0)), rotation_quat: None, translation: None });
    match s.preview_target(&poses, &sk, 16) {
        PreviewTarget::Pose(p) => assert_eq!(p.joints.len(), 1),
        other => panic!("{other:?}"),
    }
    assert!(!s.animation.playing);
    s.pose.draft.joints.insert(key("tail"), JointTarget { rotation_deg: None, rotation_quat: None, translation: None });
    assert!(matches!(s.preview_target(&poses, &sk, 16), PreviewTarget::Keep));
    assert_eq!(s.status.status, "pose: pose references unknown joint 'tail'");
    assert_eq!(s.status.kind, StatusKind::Error);

    s.tab = EditorTab::Animation;
    s.animation.draft.keyframes.push(kf(Some("idle"), 300));
    s.animation.playing = true;
    s.animation.playhead_ms = 100;
    match s.preview_target(&poses, &sk, 16) {
        PreviewTarget::AnimationAt { animation, playhead_ms } => {
            assert_eq!(playhead_ms, 116);
            assert_eq!(animation.keyframes.len(), 2);
            assert!(!animation.looping);
        },
        other => panic!("{other:?}"),
    }
    assert_eq!(s.animation.playhead_ms, 116);
    s.animation.draft.keyframes.push(kf(Some("ghost"), 300));
    assert!(matches!(s.preview_target(&poses, &sk, 16), PreviewTarget::Keep));
    assert_eq!(s.status.status, "animation: animation 'new_animation' keyframe 2 references unknown pose 'ghost'");
    assert_eq!(s.animation.playhead_ms, 0);
    assert!(!s.animation.playing);
}

fn kf_named(pose: &str, ms: u32) -> KeyframeSpec<f32> {
    KeyframeSpec {
        pose: Some(pose.to_string()),
        joints: None,
        camera: None,
        expressions: None,
        hold: None,
        duration_ms: ms,
        easing: Easing::Linear,
    }
}

fn poses_of(a: &AnimationEditorState<f32>) -> Vec<String> {
    a.draft.keyframes.iter().map(|k| k.pose.clone().unwrap_or_default()).collect()
}

#[test]
fn keyframe_list_add_duplicate_and_remove() {
    let mut a: AnimationEditorState<f32> = AnimationEditorState::new();
    a.push_keyframe(kf_named("wave", 300));
    assert_eq!(a.selected_keyframe, 1);
    a.selected_keyframe = 0;
    a.add_keyframe();
    assert_eq!(poses_of(&a), vec!["idle", "idle", "wave"]);
    assert_eq!(a.selected_keyframe, 1);
    a.selected_keyframe = 9;
    a.add_keyframe();
    assert_eq!(a.selected_keyframe, 3);
    assert_eq!(a.draft.keyframes.len(), 4);

    a.selected_keyframe = 2;
    a.duplicate_keyframe();
    assert_eq!(poses_of(&a), vec!["idle", "idle", "wave", "wave", "idle"]);
    assert_eq!(a.selected_keyframe, 3);
    assert_eq!(a.draft.keyframes[3].duration_ms, 300);
    a.selected_keyframe = 7;
    a.duplicate_keyframe();
    assert_eq!(a.draft.keyframes.len(), 5);
    assert_eq!(a.selected_keyframe, 7);

    a.selected_keyframe = 4;
    a.remove_keyframe(4);
    assert_eq!(a.selected_keyframe, 3);
    a.remove_keyframe(0);
    assert_eq!(a.selected_keyframe, 2);
    assert_eq!(poses_of(&a), vec!["idle", "wave", "wave"]);
    a.selected_keyframe = 2;
    a.remove_keyframe(2);
    a.remove_keyframe(1);
    a.remove_keyframe(0);
    assert!(a.draft.keyframes.is_empty());
    assert_eq!(a.selected_keyframe, 0);
}

#[test]
fn keyframe_moves_carry_the_selection() {
    let mut a: AnimationEditorState<f32> = AnimationEditorState::new();
    a.push_keyframe(kf_named("a", 100));
    a.push_keyframe(kf_named("b", 200));
    a.selected_keyframe = 2;
    a.move_keyframe_up(2);
    assert_eq!(poses_of(&a), vec!["idle", "b", "a"]);
    assert_eq!(a.selected_keyframe, 1);
    a.move_keyframe_down(0);
    assert_eq!(poses_of(&a), vec!["b", "idle", "a"]);
    assert_eq!(a.selected_keyframe, 0);
    a.move_keyframe_down(1);
    assert_eq!(poses_of(&a), vec!["b", "a", "idle"]);
    assert_eq!(a.selected_keyframe, 0);
    // Up then back down restores list and selection.
    a.selected_keyframe = 1;
    a.move_keyframe_up(2);
    a.move_keyframe_down(1);
    assert_eq!(poses_of(&a), vec!["b", "a", "idle"]);
    assert_eq!(a.selected_keyframe, 1);
}

#[test]
fn play_pause_and_stop_rewind() {
    let mut a: AnimationEditorState<f32> = AnimationEditorState::new();
    a.playhead_ms = 800;
    a.toggle_play(800);
    assert!(a.playing);
    assert_eq!(a.playhead_ms, 0);
    a.playhead_ms = 300;
    a.toggle_play(800);
    assert!(!a.playing);
    assert_eq!(a.playhead_ms, 300);
    a.toggle_play(800);
    assert!(a.playing);
    assert_eq!(a.playhead_ms, 300);
    a.stop();
    assert!(!a.playing);
    assert_eq!(a.playhead_ms, 0);
}
