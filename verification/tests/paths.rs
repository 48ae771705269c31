use std::path::Path;
use unity_ls::paths::assets_dir;

#[test]
fn assets_dir_is_joined_like_path_join() {
    for root in ["/tmp/project", "/tmp/project/", "/", "", "relative/root"] {
        let expected = Path::new(root).join("Assets");
        assert_eq!(assets_dir(root), expected.to_str().unwrap(), "root {root:?}");
    }
    assert_eq!(assets_dir("/tmp/project"), "/tmp/project/Assets");
}
