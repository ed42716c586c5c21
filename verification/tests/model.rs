use flagrant::errors::{BadRequest, FlagrantError};
use flagrant::model::{Environment, Feature, Project};
use flagrant::store::Store;
use flagrant::values::FeatureValue;
use flagrant::{environment, feature, project, variant};

fn create_environment(store: &mut Store, project: &Project, name: &str) -> Environment {
    environment::create(store, project, name.to_owned(), Some("Lorem ipsum".to_owned())).unwrap()
}

fn create_context(store: &mut Store) -> (Project, Environment) {
    let project = project::create(store, "fancy project".to_owned()).unwrap();
    let environment = create_environment(store, &project, "ENV_one");
    (project, environment)
}

fn create_feature(store: &mut Store, environment: &Environment, name: &str, value: Option<&str>) -> Feature {
    feature::create(
        store,
        environment,
        name.to_owned(),
        value.map(|v| FeatureValue::Text(v.to_owned())),
        true,
    )
    .unwrap()
}

#[test]
fn create_project() {
    let mut store = Store::new();
    let name = "Sample project";
    let project = project::create(&mut store, name.to_owned()).unwrap();

    assert_eq!(project.name, name);
    assert_eq!(project.id, 1);
    assert_eq!(project::fetch(&store, project.id), Ok(project));
    assert_eq!(project::fetch(&store, 2), Err(FlagrantError::NotFound));
}

#[test]
fn create_project_without_name() {
    let mut store = Store::new();
    assert_eq!(
        project::create(&mut store, String::new()),
        Err(FlagrantError::BadRequest(BadRequest::NameInvalid))
    );
    assert_eq!(project::fetch(&store, 1), Err(FlagrantError::NotFound));
}

#[test]
fn create_and_fetch_environments() {
    let mut store = Store::new();
    let (project, env) = create_context(&mut store);
    let other = create_environment(&mut store, &project, "staging");

    assert_eq!(environment::fetch(&store, env.id), Ok(env.clone()));
    assert_eq!(environment::fetch_by_name(&store, &project, "staging".to_owned()), Ok(other.clone()));
    assert_eq!(
        environment::fetch_by_name(&store, &project, "production".to_owned()),
        Err(FlagrantError::NotFound)
    );
    assert_eq!(environment::fetch(&store, 99), Err(FlagrantError::NotFound));
    assert_eq!(
        environment::create(&mut store, &project, "staging".to_owned(), None),
        Err(FlagrantError::BadRequest(BadRequest::NameTaken))
    );
    let missing = Project { id: 42, name: "nope".to_owned() };
    assert_eq!(
        environment::create(&mut store, &missing, "staging".to_owned(), None),
        Err(FlagrantError::NotFound)
    );
    assert_eq!(environment::fetch_for_project(&store, &project), vec![env.clone(), other.clone()]);
    assert_eq!(environment::fetch_by_prefix(&store, &project, "sta".to_owned()), vec![other]);
    assert_eq!(environment::fetch_by_prefix(&store, &project, "ENV_".to_owned()), vec![env]);
    assert!(environment::fetch_by_prefix(&store, &project, "x".to_owned()).is_empty());
}

#[test]
fn same_environment_name_in_two_projects() {
    let mut store = Store::new();
    let first = project::create(&mut store, "one".to_owned()).unwrap();
    let second = project::create(&mut store, "two".to_owned()).unwrap();
    let a = create_environment(&mut store, &first, "production");
    let b = create_environment(&mut store, &second, "production");
    assert_ne!(a.id, b.id);
    assert_eq!(environment::fetch_by_name(&store, &second, "production".to_owned()), Ok(b));
}

#[test]
fn create_feature_with_no_value() {
    let mut store = Store::new();
    let (_, environment) = create_context(&mut store);
    let feature = feature::create(&mut store, &environment, "sample".to_owned(), None, true).unwrap();

    assert!(feature.is_enabled);
    assert!(feature.variants.is_empty());
}

#[test]
fn create_feature_with_default_value() {
    let mut store = Store::new();
    let (_, environment) = create_context(&mut store);
    let value = FeatureValue::Json("{\"foo\": 2}".to_owned());
    let feature = feature::create(
        &mut store,
        &environment,
        "featuriozzo".to_owned(),
        Some(value.clone()),
        true,
    )
    .unwrap();

    assert_eq!(feature.variants.len(), 1);
    assert_eq!(feature.get_default_value(), Some(&value));

    let default_variant = feature.get_default_variant().unwrap();

    assert_eq!(default_variant.weight, 100);
    assert!(default_variant.is_control());
}

#[test]
fn create_feature_with_missing_default_variant_in_other_env() {
    let mut store = Store::new();
    let (project, environment1) = create_context(&mut store);
    let environment2 = create_environment(&mut store, &project, "ENV_two");

    let feature = create_feature(&mut store, &environment1, "F_one", Some("foo"));
    variant::create(&mut store, &environment1, &feature, FeatureValue::build("bar"), 40).unwrap();

    // no default variant in environment2, hence list of variants is empty even though
    // some have been created in environment1.
    let feature = feature::fetch(&store, &environment2, feature.id).unwrap();
    assert!(feature.variants.is_empty());

    // after adding default variant, a list consisting of default- and previously created
    // variant should be returned.
    variant::upsert_default(&mut store, &environment2, &feature, FeatureValue::build("bazz")).unwrap();

    let feature = feature::fetch(&store, &environment2, feature.id).unwrap();
    assert_eq!(feature.variants.len(), 2);
    assert_eq!(feature.variants[0].weight, 100);
    assert_eq!(feature.variants[1].weight, 0);
}

#[test]
fn create_feature_with_different_values_in_envs() {
    let mut store = Store::new();
    let (project, environment1) = create_context(&mut store);
    let environment2 = create_environment(&mut store, &project, "ENV_two");

    let feature = create_feature(&mut store, &environment1, "F_one", Some("foo"));

    variant::upsert_default(&mut store, &environment2, &feature, FeatureValue::build("bazz")).unwrap();

    let fv1 = FeatureValue::Text("foo".to_string());
    let fv2 = FeatureValue::Text("bazz".to_string());

    let feature = feature::fetch(&store, &environment1, feature.id).unwrap();
    assert_eq!(feature.get_default_value(), Some(&fv1));

    let feature = feature::fetch(&store, &environment2, feature.id).unwrap();
    assert_eq!(feature.get_default_value(), Some(&fv2));
}

#[test]
fn create_feature_with_invalid_name() {
    let mut store = Store::new();
    let (_, environment) = create_context(&mut store);
    for name in [" ble", "123", "💕333", "foo-bazz"] {
        let feature = feature::create(
            &mut store,
            &environment,
            name.to_owned(),
            Some(FeatureValue::Text("foo".to_owned())),
            false,
        );
        assert!(feature.is_err())
    }

    // name too long
    let feature = feature::create(
        &mut store,
        &environment,
        format!("F_{}", "a".repeat(1024)),
        Some(FeatureValue::Text("foo".to_owned())),
        false,
    );
    assert!(feature.is_err());
    assert_eq!(feature, Err(FlagrantError::BadRequest(BadRequest::NameInvalid)));
    assert!(feature::list(&store, &environment).is_empty());
}

#[test]
fn create_feature_with_non_unique_name() {
    let mut store = Store::new();
    let (_, environment) = create_context(&mut store);
    let name = "should_be_unique";

    feature::create(
        &mut store,
        &environment,
        name.to_owned(),
        Some(FeatureValue::Text("foo".to_owned())),
        false,
    )
    .unwrap();

    let second = feature::create(
        &mut store,
        &environment,
        name.to_owned(),
        Some(FeatureValue::Text("foo".to_owned())),
        false,
    );
    assert!(second.is_err());
}

#[test]
fn name_taken_is_reported_and_nothing_is_written() {
    let mut store = Store::new();
    let (_, environment) = create_context(&mut store);
    create_feature(&mut store, &environment, "twice", Some("foo"));
    assert_eq!(
        feature::create(&mut store, &environment, "twice".to_owned(), None, false),
        Err(FlagrantError::BadRequest(BadRequest::NameTaken))
    );
    assert_eq!(feature::list(&store, &environment).len(), 1);
}

#[test]
fn delete_feature_with_default_value() {
    let mut store = Store::new();
    let (_, environment) = create_context(&mut store);
    let feature = create_feature(&mut store, &environment, "F_one", Some("foo"));

    assert!(feature::delete(&mut store, &environment, &feature).is_ok());
    assert!(feature::fetch(&store, &environment, feature.id).is_err());
}

#[test]
fn delete_feature_with_variants() {
    let mut store = Store::new();
    let (_, environment) = create_context(&mut store);
    let feature = create_feature(&mut store, &environment, "F_one", Some("foo"));

    variant::create(&mut store, &environment, &feature, FeatureValue::build("bar-1"), 10).unwrap();
    variant::create(&mut store, &environment, &feature, FeatureValue::build("bar-2"), 10).unwrap();

    assert!(feature::delete(&mut store, &environment, &feature).is_ok());
    assert!(feature::fetch(&store, &environment, feature.id).is_err());
    assert_eq!(
        feature::delete(&mut store, &environment, &feature),
        Err(FlagrantError::NotFound)
    );
}

#[test]
fn create_valid_variant() {
    let mut store = Store::new();
    let (_, environment) = create_context(&mut store);
    let feature = create_feature(&mut store, &environment, "F_one", Some("foo"));
    let variant = variant::create(&mut store, &environment, &feature, FeatureValue::build("bar"), 10);

    assert!(variant.is_ok());
    let variant = variant.unwrap();
    assert_eq!(variant.weight, 10);
    assert_eq!(variant.accumulator, 10);
    assert!(!variant.is_control());
    assert_eq!(variant::fetch(&store, &environment, variant.id), Ok(variant));
}

#[test]
fn create_variant_for_feature_with_no_default_variant() {
    let mut store = Store::new();
    let (_, environment) = create_context(&mut store);
    let feature = create_feature(&mut store, &environment, "F_one", None);
    let variant = variant::create(&mut store, &environment, &feature, FeatureValue::build("bar"), 10);

    assert!(variant.is_err());
    assert_eq!(variant, Err(FlagrantError::BadRequest(BadRequest::NoDefaultValue)));
}

#[test]
fn create_variants_with_valid_weights() {
    let mut store = Store::new();
    let (_, environment) = create_context(&mut store);
    let feature = create_feature(&mut store, &environment, "F_one", Some("bar"));

    variant::create(&mut store, &environment, &feature, FeatureValue::build("bar-1"), 10).unwrap();
    variant::create(&mut store, &environment, &feature, FeatureValue::build("bar-2"), 30).unwrap();
    variant::create(&mut store, &environment, &feature, FeatureValue::build("bar-3"), 40).unwrap();

    let feature = feature::fetch(&store, &environment, feature.id).unwrap();
    let default_variant = feature.get_default_variant().unwrap();

    assert_eq!(default_variant.weight, 20);
}

#[test]
fn create_variants_with_exceeding_weight() {
    let mut store = Store::new();
    let (_, environment) = create_context(&mut store);
    let feature = create_feature(&mut store, &environment, "F_one", Some("bar"));

    variant::create(&mut store, &environment, &feature, FeatureValue::build("bar-1"), 10).unwrap();
    variant::create(&mut store, &environment, &feature, FeatureValue::build("bar-1"), 30).unwrap();

    let exceeding_variant =
        variant::create(&mut store, &environment, &feature, FeatureValue::build("bar-3"), 90);

    assert!(exceeding_variant.is_err());
    assert_eq!(exceeding_variant, Err(FlagrantError::BadRequest(BadRequest::WeightExceeded)));
    assert_eq!(variant::list(&store, &environment, &feature).unwrap().len(), 3);
}

#[test]
fn create_variants_with_different_weights_in_envs() {
    let mut store = Store::new();
    let (project, environment1) = create_context(&mut store);
    let environment2 = create_environment(&mut store, &project, "ENV_two");

    let feature = create_feature(&mut store, &environment1, "F_one", Some("foo"));
    let variant =
        variant::create(&mut store, &environment1, &feature, FeatureValue::build("bar"), 40).unwrap();

    variant::upsert_default(&mut store, &environment2, &feature, FeatureValue::build("bazz")).unwrap();
    variant::update(&mut store, &environment2, &variant, FeatureValue::build("new-bar"), 99).unwrap();

    let variant_env1 = variant::fetch(&store, &environment1, variant.id).unwrap();
    let variant_env2 = variant::fetch(&store, &environment2, variant.id).unwrap();

    // variant values are common across all environments
    assert_eq!(variant_env1.value, "text::new-bar".parse().unwrap());
    assert_eq!(variant_env2.value, "text::new-bar".parse().unwrap());

    // ...but weights are not
    assert_eq!(variant_env1.weight, 40);
    assert_eq!(variant_env2.weight, 99);
}

#[test]
fn disallow_default_variant_manual_updates() {
    let mut store = Store::new();
    let (_, environment) = create_context(&mut store);
    let feature = create_feature(&mut store, &environment, "F_one", Some("foo"));
    let default_variant = feature.get_default_variant().unwrap();

    let updated =
        variant::update(&mut store, &environment, default_variant, FeatureValue::build("bar"), 50);
    assert!(updated.is_err());
}

#[test]
fn control_variant_is_immutable_through_variant_update() {
    let mut store = Store::new();
    let (_, environment) = create_context(&mut store);
    let feature = create_feature(&mut store, &environment, "F_one", Some("foo"));
    let mut default_variant = feature.get_default_variant().unwrap().clone();

    assert_eq!(
        variant::update(&mut store, &environment, &default_variant, FeatureValue::build("bar"), 50),
        Err(FlagrantError::BadRequest(BadRequest::ControlVariantImmutable))
    );
    // the store knows a control variant even where the caller hides it
    default_variant.environment_id = None;
    assert_eq!(
        variant::update(&mut store, &environment, &default_variant, FeatureValue::build("bar"), 50),
        Err(FlagrantError::BadRequest(BadRequest::ControlVariantImmutable))
    );
    let feature = feature::fetch(&store, &environment, feature.id).unwrap();
    assert_eq!(feature.get_default_value(), Some(&FeatureValue::build("foo")));
}

#[test]
fn recalculate_default_weight_for_variant_update() {
    let mut store = Store::new();
    let (_, environment) = create_context(&mut store);
    let feature = create_feature(&mut store, &environment, "F_one", Some("bar"));

    variant::create(&mut store, &environment, &feature, FeatureValue::build("bar-1"), 10).unwrap();
    variant::create(&mut store, &environment, &feature, FeatureValue::build("bar-2"), 30).unwrap();

    let variant =
        variant::create(&mut store, &environment, &feature, FeatureValue::build("bar-3"), 40).unwrap();
    variant::update(&mut store, &environment, &variant, FeatureValue::build("new-bar-3"), 50).unwrap();

    let feature = feature::fetch(&store, &environment, feature.id).unwrap();
    let default_variant = feature.get_default_variant().unwrap();

    assert_eq!(default_variant.weight, 10);
}

#[test]
fn recalculate_default_weight_for_variant_delete() {
    let mut store = Store::new();
    let (_, environment) = create_context(&mut store);
    let feature = create_feature(&mut store, &environment, "F_one", Some("bar"));

    variant::create(&mut store, &environment, &feature, FeatureValue::build("bar-1"), 10).unwrap();
    variant::create(&mut store, &environment, &feature, FeatureValue::build("bar-2"), 30).unwrap();

    let variant =
        variant::create(&mut store, &environment, &feature, FeatureValue::build("bar-3"), 40).unwrap();

    variant::delete(&mut store, &environment, &variant).unwrap();

    let feature = feature::fetch(&store, &environment, feature.id).unwrap();
    let default_variant = feature.get_default_variant().unwrap();

    assert_eq!(default_variant.weight, 60);
    assert_eq!(
        variant::fetch(&store, &environment, variant.id),
        Err(FlagrantError::NotFound)
    );
}

#[test]
fn ignore_default_weight_recalculation_for_exceeding_weight_update() {
    let mut store = Store::new();
    let (_, environment) = create_context(&mut store);
    let feature = create_feature(&mut store, &environment, "F_one", Some("bar"));

    variant::create(&mut store, &environment, &feature, FeatureValue::build("bar-1"), 10).unwrap();
    variant::create(&mut store, &environment, &feature, FeatureValue::build("bar-2"), 30).unwrap();

    // update with exceeding weight should fail
    let variant =
        variant::create(&mut store, &environment, &feature, FeatureValue::build("bar-3"), 40).unwrap();

    assert!(
        variant::update(&mut store, &environment, &variant, FeatureValue::build("new-bar-3"), 80)
            .is_err()
    );

    // default weight should retain old value
    let feature = feature::fetch(&store, &environment, feature.id).unwrap();
    let default_variant = feature.get_default_variant().unwrap();

    assert_eq!(default_variant.weight, 20);
    assert_eq!(
        variant::fetch(&store, &environment, variant.id).unwrap().value,
        FeatureValue::build("bar-3")
    );
}

#[test]
fn disallow_removing_default_variant_when_other_variants_exist() {
    let mut store = Store::new();
    let (_, environment) = create_context(&mut store);
    let feature = create_feature(&mut store, &environment, "F_one", Some("bar"));

    variant::create(&mut store, &environment, &feature, FeatureValue::build("bar-1"), 10).unwrap();
    variant::create(&mut store, &environment, &feature, FeatureValue::build("bar-2"), 30).unwrap();

    let variant = feature.get_default_variant().unwrap();

    assert!(variant::delete(&mut store, &environment, variant).is_err());
    assert!(feature.get_default_variant().is_some());
    assert_eq!(
        variant::delete(&mut store, &environment, variant),
        Err(FlagrantError::BadRequest(BadRequest::ControlHasDependents))
    );
    assert_eq!(variant::list(&store, &environment, &feature).unwrap().len(), 3);
}

#[test]
fn allow_removing_default_variant_when_no_other_variants_exist() {
    let mut store = Store::new();
    let (_, environment) = create_context(&mut store);
    let feature = create_feature(&mut store, &environment, "F_one", Some("bar"));

    let variant = feature.get_default_variant().unwrap();

    assert!(variant::delete(&mut store, &environment, variant).is_ok());
    assert!(feature::fetch(&store, &environment, feature.id).unwrap().variants.is_empty());
    assert_eq!(variant::list(&store, &environment, &feature), Ok(vec![]));
}

#[test]
fn the_store_gives_out_ids_until_they_run_out() {
    let mut store = Store::new();
    for id in 1..u16::MAX {
        let project = project::create(&mut store, "p".to_owned()).unwrap();
        assert_eq!(project.id, id);
    }
    assert_eq!(
        project::create(&mut store, "p".to_owned()),
        Err(FlagrantError::StoreUnavailable)
    );
    assert_eq!(project::fetch(&store, u16::MAX - 1).map(|p| p.id), Ok(u16::MAX - 1));
    assert_eq!(project::fetch(&store, u16::MAX), Err(FlagrantError::NotFound));
}
