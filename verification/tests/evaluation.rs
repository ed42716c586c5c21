use flagrant::errors::FlagrantError;
use flagrant::evaluation::{get_feature, Distributor};
use flagrant::model::{Environment, Feature, Project};
use flagrant::store::Store;
use flagrant::values::FeatureValue;
use flagrant::{environment, feature, project, variant};

fn setup(store: &mut Store) -> (Project, Environment) {
    let project = project::create(store, "shop".to_owned()).unwrap();
    let environment = environment::create(store, &project, "E1".to_owned(), None).unwrap();
    (project, environment)
}

fn plain(value: &str) -> FeatureValue {
    FeatureValue::Text(value.to_owned())
}

fn evaluate(store: &mut Store, environment: &Environment, name: &str) -> Result<FeatureValue, FlagrantError> {
    get_feature(store, environment.id, "u1", name.to_owned())
}

fn accumulators(store: &Store, environment: &Environment, feature: &Feature) -> Vec<i32> {
    variant::list(store, environment, feature).unwrap().iter().map(|v| v.accumulator).collect()
}

#[test]
fn empty_feature_evaluation() {
    let mut store = Store::new();
    let (_, e1) = setup(&mut store);
    feature::create(&mut store, &e1, "f1".to_owned(), None, true).unwrap();
    assert_eq!(evaluate(&mut store, &e1, "f1"), Err(FlagrantError::NoValue));
}

#[test]
fn unknown_feature_or_environment() {
    let mut store = Store::new();
    let (_, e1) = setup(&mut store);
    feature::create(&mut store, &e1, "f1".to_owned(), Some(plain("A")), true).unwrap();
    assert_eq!(evaluate(&mut store, &e1, "f0"), Err(FlagrantError::NotFound));
    assert_eq!(get_feature(&mut store, 77, "u1", "f1".to_owned()), Err(FlagrantError::NotFound));
}

#[test]
fn single_control_distribution() {
    let mut store = Store::new();
    let (_, e1) = setup(&mut store);
    let f2 = feature::create(&mut store, &e1, "f2".to_owned(), Some(plain("A")), true).unwrap();
    for _ in 0..10 {
        assert_eq!(accumulators(&store, &e1, &f2), vec![100]);
        assert_eq!(evaluate(&mut store, &e1, "f2"), Ok(plain("A")));
    }
}

#[test]
fn two_variants_30_70() {
    let mut store = Store::new();
    let (_, e1) = setup(&mut store);
    let f3 = feature::create(&mut store, &e1, "f3".to_owned(), Some(plain("A")), true).unwrap();
    variant::create(&mut store, &e1, &f3, plain("B"), 70).unwrap();

    // control first, then the standard variant
    assert_eq!(accumulators(&store, &e1, &f3), vec![30, 70]);

    let mut sequence = String::new();
    for _ in 0..10 {
        match evaluate(&mut store, &e1, "f3").unwrap() {
            FeatureValue::Text(value) => sequence.push_str(&value),
            other => panic!("unexpected value {other:?}"),
        }
    }
    assert_eq!(sequence, "BABBABBBAB");
    assert_eq!(sequence.matches('A').count(), 3);
    assert_eq!(sequence.matches('B').count(), 7);
    assert_eq!(accumulators(&store, &e1, &f3), vec![30, 70]);
}

#[test]
fn the_first_evaluations_book_their_choice() {
    let mut store = Store::new();
    let (_, e1) = setup(&mut store);
    let f = feature::create(&mut store, &e1, "f3".to_owned(), Some(plain("A")), true).unwrap();
    variant::create(&mut store, &e1, &f, plain("B"), 70).unwrap();

    let chosen = Distributor::new(feature::fetch(&store, &e1, f.id).unwrap())
        .distribute(&mut store, &e1)
        .unwrap();
    // the variant comes as it stood before the choice was booked
    assert_eq!(chosen.value, plain("B"));
    assert_eq!(chosen.weight, 70);
    assert_eq!(chosen.accumulator, 70);
    assert_eq!(accumulators(&store, &e1, &f), vec![60, 40]);

    let chosen = Distributor::new(feature::fetch(&store, &e1, f.id).unwrap())
        .distribute(&mut store, &e1)
        .unwrap();
    assert_eq!(chosen.value, plain("A"));
    assert!(chosen.is_control());
    assert_eq!(accumulators(&store, &e1, &f), vec![-10, 110]);
}

#[test]
fn a_feature_switched_off_yields_its_control_value_and_books_nothing() {
    let mut store = Store::new();
    let (_, e1) = setup(&mut store);
    let f = feature::create(&mut store, &e1, "off".to_owned(), Some(plain("A")), false).unwrap();
    variant::create(&mut store, &e1, &f, plain("B"), 90).unwrap();
    for _ in 0..5 {
        assert_eq!(evaluate(&mut store, &e1, "off"), Ok(plain("A")));
        assert_eq!(accumulators(&store, &e1, &f), vec![10, 90]);
    }
    feature::update(&mut store, &e1, &f, "off".to_owned(), None, true).unwrap();
    assert_eq!(evaluate(&mut store, &e1, "off"), Ok(plain("B")));
}

#[test]
fn environment_isolation() {
    let mut store = Store::new();
    let (project, e1) = setup(&mut store);
    let e2 = environment::create(&mut store, &project, "E2".to_owned(), None).unwrap();
    let f4 = feature::create(&mut store, &e1, "f4".to_owned(), Some(plain("A")), true).unwrap();
    variant::upsert_default(&mut store, &e2, &f4, plain("Z")).unwrap();

    for _ in 0..3 {
        assert_eq!(evaluate(&mut store, &e1, "f4"), Ok(plain("A")));
        assert_eq!(evaluate(&mut store, &e2, "f4"), Ok(plain("Z")));
    }

    let control = feature::fetch(&store, &e1, f4.id).unwrap().get_default_variant().unwrap().clone();
    variant::delete(&mut store, &e1, &control).unwrap();

    assert_eq!(evaluate(&mut store, &e1, "f4"), Err(FlagrantError::NoValue));
    assert_eq!(evaluate(&mut store, &e2, "f4"), Ok(plain("Z")));
    assert_eq!(
        feature::fetch(&store, &e2, f4.id).unwrap().get_default_value(),
        Some(&plain("Z"))
    );
}

#[test]
fn delete_with_dependents() {
    let mut store = Store::new();
    let (_, e1) = setup(&mut store);
    let f = feature::create(&mut store, &e1, "f5".to_owned(), Some(plain("A")), true).unwrap();
    let standard = variant::create(&mut store, &e1, &f, plain("B"), 40).unwrap();
    let control = f.get_default_variant().unwrap().clone();

    assert_eq!(
        variant::delete(&mut store, &e1, &control),
        Err(FlagrantError::BadRequest(flagrant::errors::BadRequest::ControlHasDependents))
    );
    assert_eq!(variant::delete(&mut store, &e1, &standard), Ok(()));
    assert_eq!(variant::delete(&mut store, &e1, &control), Ok(()));
    assert!(feature::fetch(&store, &e1, f.id).unwrap().variants.is_empty());
}

#[test]
fn update_weight_recomputes_control() {
    let mut store = Store::new();
    let (_, e1) = setup(&mut store);
    let f = feature::create(&mut store, &e1, "f6".to_owned(), Some(plain("A")), true).unwrap();
    variant::create(&mut store, &e1, &f, plain("B"), 10).unwrap();
    let second = variant::create(&mut store, &e1, &f, plain("C"), 30).unwrap();
    let control_weight = |store: &Store| {
        feature::fetch(store, &e1, f.id).unwrap().get_default_variant().unwrap().weight
    };
    assert_eq!(control_weight(&store), 60);

    variant::update(&mut store, &e1, &second, plain("C"), 50).unwrap();
    assert_eq!(control_weight(&store), 40);

    assert_eq!(
        variant::update(&mut store, &e1, &second, plain("C"), 95),
        Err(FlagrantError::BadRequest(flagrant::errors::BadRequest::WeightExceeded))
    );
    assert_eq!(control_weight(&store), 40);
}

#[test]
fn weights_may_reach_100_and_not_pass_it() {
    let mut store = Store::new();
    let (_, e1) = setup(&mut store);
    let f = feature::create(&mut store, &e1, "full".to_owned(), Some(plain("A")), true).unwrap();
    variant::create(&mut store, &e1, &f, plain("B"), 60).unwrap();
    variant::create(&mut store, &e1, &f, plain("C"), 40).unwrap();
    let listed = variant::list(&store, &e1, &f).unwrap();
    assert_eq!(listed.iter().map(|v| v.weight).collect::<Vec<_>>(), vec![0, 60, 40]);
    assert_eq!(listed.iter().map(|v| v.accumulator).collect::<Vec<_>>(), vec![0, 60, 40]);

    assert_eq!(
        variant::create(&mut store, &e1, &f, plain("D"), 1),
        Err(FlagrantError::BadRequest(flagrant::errors::BadRequest::WeightExceeded))
    );
    assert_eq!(
        variant::create(&mut store, &e1, &f, plain("D"), 101),
        Err(FlagrantError::BadRequest(flagrant::errors::BadRequest::WeightOutOfRange))
    );
    assert_eq!(
        variant::create(&mut store, &e1, &f, plain("D"), -1),
        Err(FlagrantError::BadRequest(flagrant::errors::BadRequest::WeightOutOfRange))
    );
    let listed = variant::list(&store, &e1, &f).unwrap();
    assert_eq!(
        variant::update(&mut store, &e1, &listed[1], plain("B"), -40),
        Err(FlagrantError::BadRequest(flagrant::errors::BadRequest::WeightOutOfRange))
    );
    assert_eq!(
        variant::update(&mut store, &e1, &listed[1], plain("B"), 300),
        Err(FlagrantError::BadRequest(flagrant::errors::BadRequest::WeightOutOfRange))
    );
    assert_eq!(variant::list(&store, &e1, &f).unwrap().len(), 3);
    // a variant without weight still fits
    assert!(variant::create(&mut store, &e1, &f, plain("D"), 0).is_ok());
}

#[test]
fn long_run_follows_the_weights() {
    let mut store = Store::new();
    let (_, e1) = setup(&mut store);
    let f = feature::create(&mut store, &e1, "spookie".to_owned(), Some(plain("control")), true).unwrap();
    variant::create(&mut store, &e1, &f, plain("Big"), 10).unwrap();
    variant::create(&mut store, &e1, &f, plain("Small"), 30).unwrap();
    let mut hits = std::collections::HashMap::<String, usize>::new();
    for _ in 1..=100 {
        let value = evaluate(&mut store, &e1, "spookie").unwrap();
        *hits.entry(value.to_string()).or_insert(0) += 1;
    }
    assert_eq!(hits["text::Big"], 10);
    assert_eq!(hits["text::Small"], 30);
    assert_eq!(hits["text::control"], 60);
}
