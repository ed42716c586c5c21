use flagrant::variadic::{
    AccumulatedVar, AccumulativeDistributor, Feature, FeatureValue, VariadicError, Variation,
};
use std::collections::{HashMap, HashSet};

#[test]
fn simple_feature_value() {
    let value = String::from("control value");
    let mut feature = Feature::new(String::from("sample feature"), value.clone()).unwrap();

    // simple feature - no variations, just a constant value
    assert!(feature.variations().is_err());
    assert_eq!(feature.value(None), Ok(FeatureValue::Simple(value)));
}

#[test]
fn multivariadic_feature_with_control_value_only() {
    let control_value = String::from("control value");
    let mut feature = Feature::new_variadic(
        String::from("sample feature"),
        control_value.clone(),
        vec![],
    )
    .unwrap();

    let variations = feature.variations().unwrap();
    assert_eq!(variations.len(), 1);

    let id = variations.first().unwrap().id;
    assert_eq!(
        feature.value(None),
        Ok(FeatureValue::Variadic(Variation {
            id,
            value: control_value,
            weight: 100
        }))
    );
}

#[test]
fn multivariadic_feature_with_some_more_variations() {
    let variations = vec![
        (String::from("First alternative"), 30),
        (String::from("Second alternative"), 50),
    ];
    let feature = Feature::new_variadic(
        String::from("sample feature"),
        String::from("control value"),
        variations,
    )
    .unwrap();

    let variations = feature.variations().unwrap();
    assert_eq!(variations.len(), 3);
    assert_eq!(variations.first().unwrap().weight, 30);
    assert_eq!(variations.get(1).unwrap().weight, 50);
    // a control value with remaining weight
    assert_eq!(variations.get(2).unwrap().weight, 20);
}

#[test]
fn variadic_weights_exceed_100_percent() {
    assert!(Feature::new_variadic(
        String::from("sample feature"),
        String::from("control value"),
        vec![(String::from("Big"), 90), (String::from("Small"), 30)]
    )
    .is_err())
}

#[test]
fn test_variadic_weights_eq_100_percent() {
    assert!(Feature::new(String::from("sample feature"), String::from("control value")).is_ok());
    assert!(Feature::new_variadic(
        String::from("sample feature"),
        String::from("control value"),
        vec![(String::from("Big"), 40), (String::from("Small"), 20)]
    )
    .is_ok())
}

#[test]
fn variadic_distribution_with_one_variation() {
    let mut buckets = HashMap::<String, usize>::new();
    let mut feature = Feature::new_variadic(
        String::from("sample feature"),
        String::from("control value"),
        vec![],
    )
    .unwrap();

    for _ in 1..=100 {
        if let Ok(FeatureValue::Variadic(variation)) = feature.value(None) {
            *buckets.entry(variation.id.unwrap().to_string()).or_insert(0) += 1;
        }
    }

    let hits = buckets.values().collect::<HashSet<_>>();
    assert!(hits.len() == 1);
    assert!(hits.contains(&100));
}

#[test]
fn variadic_distribution_with_more_variations() {
    let mut buckets = HashMap::<String, usize>::new();
    let mut feature = Feature::new_variadic(
        String::from("sample feature"),
        String::from("control value"),
        vec![(String::from("Big"), 10), (String::from("Small"), 30)],
    )
    .unwrap();

    for _ in 1..=100 {
        if let Ok(FeatureValue::Variadic(variation)) = feature.value(None) {
            *buckets.entry(variation.id.unwrap().to_string()).or_insert(0) += 1;
        }
    }

    let hits = buckets.values().collect::<HashSet<_>>();
    assert!(hits.contains(&10));
    assert!(hits.contains(&30));
    assert!(hits.contains(&60));
}

#[test]
fn variations_are_refused_for_their_weights_or_their_number() {
    let build = |weights: Vec<i16>| {
        Feature::new_variadic(
            "f".to_owned(),
            "c".to_owned(),
            weights.into_iter().map(|w| ("v".to_owned(), w)).collect(),
        )
        .map(|f| f.variations().unwrap().iter().map(|v| v.weight).collect::<Vec<_>>())
    };
    assert_eq!(build(vec![60, 40]), Ok(vec![60, 40, 0]));
    assert_eq!(build(vec![0, 0, 0]), Ok(vec![0, 0, 0, 100]));
    assert_eq!(build(vec![60, 41]), Err(VariadicError::WeightsExceeded));
    assert_eq!(build(vec![-1, 50]), Err(VariadicError::WeightOutOfRange));
    assert_eq!(build(vec![101]), Err(VariadicError::WeightOutOfRange));
    assert_eq!(build(vec![101, -1]), Err(VariadicError::WeightOutOfRange));
    assert_eq!(build(vec![0; 255]).map(|w| w.len()), Ok(256));
    assert_eq!(build(vec![0; 5000]).map(|w| w.len()), Ok(5001));
    assert_eq!(build(vec![100; 5000]), Err(VariadicError::WeightsExceeded));
    assert_eq!(build(vec![1; 101]), Err(VariadicError::WeightsExceeded));
    let mut late = vec![100; 400];
    late.push(-1);
    assert_eq!(build(late), Err(VariadicError::WeightOutOfRange));
}

#[test]
fn many_variations_without_weight_take_no_part() {
    let mut pairs = vec![("idle".to_owned(), 0i16); 700];
    pairs.insert(350, ("Big".to_owned(), 35));
    pairs.push(("Small".to_owned(), 5));
    let mut feature = Feature::new_variadic("f".to_owned(), "control".to_owned(), pairs).unwrap();
    let mut hits = HashMap::<String, usize>::new();
    for _ in 0..1000 {
        if let Ok(FeatureValue::Variadic(variation)) = feature.value(None) {
            *hits.entry(variation.value).or_insert(0) += 1;
        }
    }
    assert_eq!(hits.len(), 3);
    assert_eq!(hits["Big"], 350);
    assert_eq!(hits["Small"], 50);
    assert_eq!(hits["control"], 600);
}

#[test]
fn variations_are_found_by_their_id() {
    let mut feature = Feature::new_variadic(
        "f".to_owned(),
        "control".to_owned(),
        vec![("Big".to_owned(), 10), ("Small".to_owned(), 30)],
    )
    .unwrap();
    let ids: Vec<u128> = feature.variations().unwrap().iter().map(|v| v.id.unwrap()).collect();
    // three ids were drawn, and they differ
    assert_eq!(ids.iter().collect::<HashSet<_>>().len(), 3);

    assert_eq!(feature.variation(ids[1]).unwrap().map(|v| v.value.as_str()), Some("Small"));
    assert_eq!(
        feature.value(Some(ids[0])),
        Ok(FeatureValue::Variadic(Variation { id: Some(ids[0]), value: "Big".to_owned(), weight: 10 }))
    );
    let unknown = ids.iter().max().unwrap().wrapping_add(1);
    if !ids.contains(&unknown) {
        assert_eq!(feature.variation(unknown), Ok(None));
        assert_eq!(feature.value(Some(unknown)), Err(VariadicError::NoSuchVariation));
    }
    let simple = Feature::new("s".to_owned(), "v".to_owned()).unwrap();
    assert_eq!(simple.variation(ids[0]), Err(VariadicError::NotVariadic));
    assert_eq!(simple.variations(), Err(VariadicError::NotVariadic));
}

#[test]
fn the_control_value_changes_in_the_feature_and_in_its_distributor() {
    let mut feature = Feature::new_variadic(
        "f".to_owned(),
        "control".to_owned(),
        vec![("Big".to_owned(), 10)],
    )
    .unwrap();
    assert_eq!(feature.set_control_value("other".to_owned()), Ok(()));
    assert_eq!(feature.control_value, "other");
    let variations = feature.variations().unwrap();
    assert_eq!(variations[1].value, "other");
    assert_eq!(variations[1].weight, 90);
    assert_eq!(variations[0].value, "Big");

    feature.simplify();
    assert_eq!(feature.value(None), Ok(FeatureValue::Simple("other".to_owned())));
    assert_eq!(feature.set_control_value("third".to_owned()), Ok(()));
    assert_eq!(feature.value(None), Ok(FeatureValue::Simple("third".to_owned())));
    assert!(!feature.is_enabled);
    assert_eq!(feature.name, "f");
}

#[test]
fn a_distributor_takes_the_ids_it_is_given() {
    let mut distributor = AccumulativeDistributor::with_id("control".to_owned(), 7);
    assert_eq!(
        distributor.variations(),
        vec![&Variation { id: Some(7), value: "control".to_owned(), weight: 100 }]
    );
    let given = vec![
        Variation { id: Some(3), value: "a".to_owned(), weight: 50 },
        Variation { id: None, value: "b".to_owned(), weight: 50 },
    ];
    assert_eq!(distributor.set_variations_with(given, &vec![11, 12]), Ok(()));
    assert_eq!(
        distributor.variations(),
        vec![
            &Variation { id: Some(3), value: "a".to_owned(), weight: 50 },
            &Variation { id: Some(12), value: "b".to_owned(), weight: 50 },
            &Variation { id: Some(7), value: "control".to_owned(), weight: 0 },
        ]
    );
    // equal accumulators: the smaller id goes first
    assert_eq!(distributor.distribute(None), 0);
    assert_eq!(distributor.distribute(Some("u1".to_owned())), 1);
    assert_eq!(distributor.distribute(None), 0);
    assert_eq!(distributor.at(1).value, "b");
    assert_eq!(distributor.find(12).map(|v| v.weight), Some(50));
    assert_eq!(distributor.find(4), None);

    let too_heavy = vec![Variation { id: None, value: "c".to_owned(), weight: 101 }];
    assert_eq!(
        distributor.set_variations_with(too_heavy, &vec![1]),
        Err(VariadicError::WeightOutOfRange)
    );
    assert_eq!(distributor.variations().len(), 3);

    distributor.set_control_value("new".to_owned());
    assert_eq!(distributor.at(2).value, "new");

    let fresh = AccumulativeDistributor::new("x".to_owned());
    let other = AccumulativeDistributor::new("x".to_owned());
    assert_ne!(fresh.at(0).id, other.at(0).id);
    let var = AccumulatedVar { accum: 5, variation: fresh.at(0).clone() };
    assert_eq!(var.variation.weight, 100);
}
