use sigchain::as_types::{
    Activity, ActivityStreamEntity, Actor, AsActivity, AsObject, Object, Ztm, is_empty,
};

#[test]
fn ztm_default_is_zero() {
    let z: Ztm<u32> = Ztm::default();
    assert!(matches!(z, Ztm::Zero));
}

#[test]
fn emptiness_of_zero_one_many() {
    assert!(is_empty::<u32>(&Ztm::Zero));
    assert!(is_empty::<u32>(&Ztm::Many(vec![])));
    assert!(!is_empty(&Ztm::One(5u32)));
    assert!(!is_empty(&Ztm::Many(vec![5u32])));
}

#[test]
fn activity_builders_fill_the_roles() {
    let actor = Actor::Person(AsObject::new(None, Some("ben".to_string())));
    let object = Object::Post(AsObject::new(None, Some("text".to_string())));
    let create = AsActivity::by_actor_with_object(actor, object);
    assert!(matches!(create.actor, Ztm::One(_)));
    assert!(matches!(create.object, Ztm::One(_)));
    assert!(matches!(create.target, Ztm::Zero));
    let entity = ActivityStreamEntity::Activity(Activity::Create(create));
    match entity {
        ActivityStreamEntity::Activity(Activity::Create(c)) => match c.actor {
            Ztm::One(Actor::Person(p)) => assert_eq!(p.name, Some("ben".to_string())),
            _ => panic!("actor lost"),
        },
        _ => panic!("entity lost"),
    }
}

#[test]
fn by_actor_and_with_object_leave_the_other_role_empty() {
    let a = Actor::Person(AsObject::new(None, None));
    let o = Object::Post(AsObject::new(None, None));
    let only_actor = AsActivity::by_actor(a);
    assert!(matches!(only_actor.object, Ztm::Zero));
    let only_object = AsActivity::with_object(o);
    assert!(matches!(only_object.actor, Ztm::Zero));
}
