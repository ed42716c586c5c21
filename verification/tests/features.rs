use flagrant::errors::{BadRequest, FlagrantError};
use flagrant::model::{Environment, Project};
use flagrant::store::Store;
use flagrant::values::FeatureValue;
use flagrant::{environment, feature, project, variant};

fn context(store: &mut Store) -> (Project, Environment) {
    let project = project::create(store, "shop".to_owned()).unwrap();
    let environment = environment::create(store, &project, "E1".to_owned(), None).unwrap();
    (project, environment)
}

fn text(value: &str) -> FeatureValue {
    FeatureValue::Text(value.to_owned())
}

#[test]
fn a_created_feature_is_fetched_by_id_and_by_name() {
    let mut store = Store::new();
    let (_, e1) = context(&mut store);
    let created = feature::create(&mut store, &e1, "spookie".to_owned(), Some(text("A")), true).unwrap();
    assert_eq!(feature::fetch(&store, &e1, created.id).as_ref(), Ok(&created));
    assert_eq!(feature::fetch_by_name(&store, &e1, "spookie".to_owned()).as_ref(), Ok(&created));
    assert_eq!(
        feature::fetch_by_name(&store, &e1, "Spookie".to_owned()),
        Err(FlagrantError::NotFound)
    );
    assert_eq!(feature::fetch(&store, &e1, created.id + 1), Err(FlagrantError::NotFound));
    assert_eq!(created.id, 1);
    assert_eq!(created.project_id, e1.project_id);
    assert_eq!(created.variants[0].id, 1);
    assert_eq!(created.variants[0].environment_id, Some(e1.id));
}

#[test]
fn features_are_listed_with_their_control_variant_alone() {
    let mut store = Store::new();
    let (project, e1) = context(&mut store);
    let other_project = project::create(&mut store, "bank".to_owned()).unwrap();
    let elsewhere = environment::create(&mut store, &other_project, "E1".to_owned(), None).unwrap();
    let e2 = environment::create(&mut store, &project, "E2".to_owned(), None).unwrap();

    let spookie = feature::create(&mut store, &e1, "spookie".to_owned(), Some(text("A")), true).unwrap();
    variant::create(&mut store, &e1, &spookie, text("B"), 25).unwrap();
    feature::create(&mut store, &e1, "spam".to_owned(), None, false).unwrap();
    feature::create(&mut store, &e1, "eggs".to_owned(), Some(text("C")), false).unwrap();
    feature::create(&mut store, &elsewhere, "spookie".to_owned(), Some(text("X")), false).unwrap();

    let all = feature::list(&store, &e1);
    assert_eq!(all.iter().map(|f| f.name.as_str()).collect::<Vec<_>>(), vec!["spookie", "spam", "eggs"]);
    assert_eq!(all[0].variants.len(), 1);
    assert_eq!(all[0].variants[0].weight, 75);
    assert_eq!(all[0].variants[0].value, text("A"));
    assert!(all[1].variants.is_empty());

    let by_prefix = feature::fetch_by_prefix(&store, &e1, "sp".to_owned());
    assert_eq!(by_prefix.iter().map(|f| f.name.as_str()).collect::<Vec<_>>(), vec!["spookie", "spam"]);
    assert!(feature::fetch_by_prefix(&store, &e1, "x".to_owned()).is_empty());

    // the other environment of the project sees the features, without values
    let there = feature::list(&store, &e2);
    assert_eq!(there.len(), 3);
    assert!(there.iter().all(|f| f.variants.is_empty()));
    assert_eq!(feature::list(&store, &elsewhere).len(), 1);
}

#[test]
fn an_update_changes_name_switch_and_value() {
    let mut store = Store::new();
    let (_, e1) = context(&mut store);
    let f = feature::create(&mut store, &e1, "spookie".to_owned(), Some(text("A")), false).unwrap();
    let standard = variant::create(&mut store, &e1, &f, text("B"), 25).unwrap();

    feature::update(&mut store, &e1, &f, "spooky".to_owned(), Some(text("AA")), true).unwrap();

    let fetched = feature::fetch(&store, &e1, f.id).unwrap();
    assert_eq!(fetched.name, "spooky");
    assert!(fetched.is_enabled);
    assert_eq!(fetched.get_default_value(), Some(&text("AA")));
    // ids, weights and the other variants are as they were
    assert_eq!(fetched.id, f.id);
    assert_eq!(fetched.variants[0].id, f.variants[0].id);
    assert_eq!(fetched.variants[0].weight, 75);
    assert_eq!(fetched.variants[1], standard);
    assert_eq!(feature::fetch_by_name(&store, &e1, "spookie".to_owned()), Err(FlagrantError::NotFound));

    // without a value only name and switch change
    feature::update(&mut store, &e1, &f, "spooky".to_owned(), None, false).unwrap();
    let fetched = feature::fetch(&store, &e1, f.id).unwrap();
    assert!(!fetched.is_enabled);
    assert_eq!(fetched.get_default_value(), Some(&text("AA")));
}

#[test]
fn an_update_gives_a_feature_its_first_value() {
    let mut store = Store::new();
    let (project, e1) = context(&mut store);
    let e2 = environment::create(&mut store, &project, "E2".to_owned(), None).unwrap();
    let f = feature::create(&mut store, &e1, "late".to_owned(), None, true).unwrap();
    feature::update(&mut store, &e2, &f, "late".to_owned(), Some(text("Z")), true).unwrap();
    assert!(feature::fetch(&store, &e1, f.id).unwrap().variants.is_empty());
    let there = feature::fetch(&store, &e2, f.id).unwrap();
    assert_eq!(there.variants.len(), 1);
    assert_eq!(there.variants[0].weight, 100);
    assert_eq!(there.variants[0].accumulator, 100);
    assert_eq!(there.get_default_value(), Some(&text("Z")));
}

#[test]
fn a_refused_update_changes_nothing() {
    let mut store = Store::new();
    let (_, e1) = context(&mut store);
    let f = feature::create(&mut store, &e1, "one".to_owned(), Some(text("A")), false).unwrap();
    let g = feature::create(&mut store, &e1, "two".to_owned(), Some(text("B")), false).unwrap();

    assert_eq!(
        feature::update(&mut store, &e1, &f, "two".to_owned(), Some(text("C")), true),
        Err(FlagrantError::BadRequest(BadRequest::NameTaken))
    );
    assert_eq!(
        feature::update(&mut store, &e1, &f, "no good".to_owned(), Some(text("C")), true),
        Err(FlagrantError::BadRequest(BadRequest::NameInvalid))
    );
    let missing = Environment { id: 40, project_id: 1, name: "gone".to_owned(), description: None };
    assert_eq!(
        feature::update(&mut store, &missing, &f, "one".to_owned(), Some(text("C")), true),
        Err(FlagrantError::NotFound)
    );
    assert_eq!(feature::fetch(&store, &e1, f.id).as_ref(), Ok(&f));
    assert_eq!(feature::fetch(&store, &e1, g.id), Ok(g));
    // keeping its own name is no clash
    assert_eq!(feature::update(&mut store, &e1, &f, "one".to_owned(), None, true), Ok(()));
}

#[test]
fn a_value_needs_an_environment_of_the_project_of_the_feature() {
    let mut store = Store::new();
    let (_, e1) = context(&mut store);
    let other_project = project::create(&mut store, "bank".to_owned()).unwrap();
    let elsewhere = environment::create(&mut store, &other_project, "E1".to_owned(), None).unwrap();
    let f = feature::create(&mut store, &e1, "one".to_owned(), None, false).unwrap();
    assert_eq!(
        variant::upsert_default(&mut store, &elsewhere, &f, text("X")),
        Err(FlagrantError::NotFound)
    );
    let control = variant::upsert_default(&mut store, &e1, &f, text("A")).unwrap();
    assert_eq!(control.weight, 100);
    assert_eq!(control.environment_id, Some(e1.id));
    let again = variant::upsert_default(&mut store, &e1, &f, text("B")).unwrap();
    assert_eq!(again.id, control.id);
    assert_eq!(again.value, text("B"));
    assert_eq!(variant::fetch(&store, &e1, control.id), Ok(again));
}

#[test]
fn standard_variants_are_hidden_where_the_feature_has_no_value() {
    let mut store = Store::new();
    let (project, e1) = context(&mut store);
    let e2 = environment::create(&mut store, &project, "E2".to_owned(), None).unwrap();
    let f = feature::create(&mut store, &e1, "one".to_owned(), Some(text("A")), true).unwrap();
    let standard = variant::create(&mut store, &e1, &f, text("B"), 10).unwrap();

    assert_eq!(variant::fetch(&store, &e2, standard.id), Err(FlagrantError::NotFound));
    assert_eq!(
        variant::update(&mut store, &e2, &standard, text("C"), 20),
        Err(FlagrantError::NotFound)
    );
    assert_eq!(variant::delete(&mut store, &e2, &standard), Err(FlagrantError::NotFound));
    assert_eq!(
        variant::create(&mut store, &e2, &f, text("C"), 20),
        Err(FlagrantError::BadRequest(BadRequest::NoDefaultValue))
    );
    // the listing is empty there, though the feature has a standard variant
    assert_eq!(variant::list(&store, &e2, &f), Ok(vec![]));
    assert_eq!(variant::list(&store, &e1, &f).map(|v| v.len()), Ok(2));
    let unknown = flagrant::model::Feature { id: 99, ..feature::fetch(&store, &e1, f.id).unwrap() };
    assert_eq!(variant::list(&store, &e1, &unknown), Err(FlagrantError::NotFound));
    assert_eq!(variant::fetch(&store, &e1, standard.id), Ok(standard));
}

#[test]
fn deleting_a_standard_variant_gives_its_weight_back_everywhere() {
    let mut store = Store::new();
    let (project, e1) = context(&mut store);
    let e2 = environment::create(&mut store, &project, "E2".to_owned(), None).unwrap();
    let f = feature::create(&mut store, &e1, "one".to_owned(), Some(text("A")), true).unwrap();
    variant::upsert_default(&mut store, &e2, &f, text("Z")).unwrap();
    let b = variant::create(&mut store, &e1, &f, text("B"), 10).unwrap();
    let c = variant::create(&mut store, &e1, &f, text("C"), 20).unwrap();
    variant::update(&mut store, &e2, &b, text("B"), 50).unwrap();
    variant::update(&mut store, &e2, &c, text("C"), 5).unwrap();

    let weights = |store: &Store, e: &Environment| {
        variant::list(store, e, &f).unwrap().iter().map(|v| v.weight).collect::<Vec<_>>()
    };
    assert_eq!(weights(&store, &e1), vec![70, 10, 20]);
    assert_eq!(weights(&store, &e2), vec![45, 50, 5]);

    variant::delete(&mut store, &e1, &b).unwrap();
    assert_eq!(weights(&store, &e1), vec![80, 20]);
    assert_eq!(weights(&store, &e2), vec![95, 5]);
    let listed = variant::list(&store, &e2, &f).unwrap();
    assert_eq!(listed.iter().map(|v| v.accumulator).collect::<Vec<_>>(), vec![95, 5]);
    assert_eq!(listed[1].id, c.id);
}

#[test]
fn the_project_of_an_environment_is_the_one_the_store_holds() {
    let mut store = Store::new();
    let (_, e1) = context(&mut store);
    let other_project = project::create(&mut store, "bank".to_owned()).unwrap();
    environment::create(&mut store, &other_project, "E1".to_owned(), None).unwrap();
    let created = feature::create(&mut store, &e1, "spookie".to_owned(), Some(text("A")), true).unwrap();

    // a caller that holds the environment with another project id is led by the store
    let misled = Environment { project_id: other_project.id, ..e1.clone() };
    assert_eq!(feature::fetch_by_name(&store, &misled, "spookie".to_owned()).as_ref(), Ok(&created));
    assert_eq!(feature::list(&store, &misled).len(), 1);
    assert_eq!(feature::fetch_by_prefix(&store, &misled, "sp".to_owned()).len(), 1);
    let there =
        feature::create(&mut store, &misled, "second".to_owned(), None, false).unwrap();
    assert_eq!(there.project_id, e1.project_id);

    // an environment that the store does not hold has no features
    let unknown = Environment { id: 77, ..e1.clone() };
    assert_eq!(
        feature::fetch_by_name(&store, &unknown, "spookie".to_owned()),
        Err(FlagrantError::NotFound)
    );
    assert!(feature::list(&store, &unknown).is_empty());
    assert!(feature::fetch_by_prefix(&store, &unknown, "sp".to_owned()).is_empty());
}
