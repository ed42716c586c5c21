use flagrant::resource::BaseResource;
use flagrant::text::decimal_string;

#[test]
fn project_paths_start_at_the_project() {
    assert_eq!(BaseResource::Project(7).subpath("/envs"), "/projects/7/envs");
    assert_eq!(BaseResource::Project(65535).subpath(""), "/projects/65535");
}

#[test]
fn environment_paths_start_at_the_environment() {
    assert_eq!(
        BaseResource::Environment(12).subpath("/features/name/spookie"),
        "/envs/12/features/name/spookie"
    );
    assert_eq!(BaseResource::Environment(0).subpath("/variants/3"), "/envs/0/variants/3");
}

#[test]
fn numbers_are_written_in_decimal() {
    assert_eq!(decimal_string(0), "0");
    assert_eq!(decimal_string(9), "9");
    assert_eq!(decimal_string(10), "10");
    assert_eq!(decimal_string(100), "100");
    assert_eq!(decimal_string(40302), "40302");
}
