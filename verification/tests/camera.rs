use paperdoll::model::{merge_camera_targets, CameraTarget, ResolvedCamera};

fn default_camera() -> ResolvedCamera<f32> {
    ResolvedCamera { yaw_deg: 35.5, pitch_deg: 9.2, distance: 4.36, look_at: [0.0, 0.9, 0.0] }
}

fn patch(yaw: Option<f32>, distance: Option<f32>) -> CameraTarget<f32> {
    CameraTarget { yaw_deg: yaw, pitch_deg: None, distance, look_at: None }
}

#[test]
fn sparse_patch_keeps_unspecified_fields() {
    let base = default_camera();
    let patched = base.with_patch(&CameraTarget { yaw_deg: Some(90.0), pitch_deg: None, distance: None, look_at: None });
    assert_eq!(patched.yaw_deg, 90.0);
    assert_eq!(patched.pitch_deg, base.pitch_deg);
    assert_eq!(patched.distance, base.distance);
    assert_eq!(patched.look_at, base.look_at);
}

#[test]
fn merged_patches_act_like_applying_both() {
    let a = patch(Some(10.0), Some(2.0));
    let b = patch(Some(20.0), None);
    let merged = merge_camera_targets(Some(a), Some(b)).unwrap();
    assert_eq!(merged.yaw_deg, Some(20.0));
    assert_eq!(merged.distance, Some(2.0));
    let c = default_camera();
    assert_eq!(c.with_patch(&a).with_patch(&b), c.with_patch(&merged));
    assert_eq!(merge_camera_targets(Some(a), None), Some(a));
    assert_eq!(merge_camera_targets::<f32>(None, None), None);
}
