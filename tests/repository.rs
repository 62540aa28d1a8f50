use axum_boilerplate::diagnostics::Error;
use axum_boilerplate::entity::{Entity, Sample, User, NEW_ENTITY_ID};
use axum_boilerplate::memory_repository::{MemoryRepository, SampleRepositoryMap};
use axum_boilerplate::repository::BasicRepository;
use axum_boilerplate::usecase::BasicSampleUsecase;

fn pairs(samples: &[Sample]) -> Vec<(i64, String)> {
    samples.iter().map(|s| (s.id, s.name.clone())).collect()
}

#[test]
fn sample_usecase_test_sample_usecase() {
    let mut usecase = BasicSampleUsecase::new(SampleRepositoryMap::new());
    let s = usecase.create(Sample::with_name("s".into())).unwrap();
    let s1 = usecase.create(Sample::with_name("s1".into())).unwrap();
    assert_eq!((s.id, s.name.as_str()), (0, "s"));
    assert_eq!((s1.id, s1.name.as_str()), (1, "s1"));
    let samples = usecase
        .sample_repository
        .find_all_by_id(vec![0, 1, 2, 3])
        .unwrap();
    assert_eq!(pairs(&samples), vec![(0, "s".to_string()), (1, "s1".to_string())]);
    usecase.sample_repository.delete_all_by_id(vec![0]).unwrap();
    let samples = usecase.find_all().unwrap();
    assert_eq!(pairs(&samples), vec![(1, "s1".to_string())]);
}

#[test]
fn created_ids_are_never_reused() {
    let mut repo = SampleRepositoryMap::new();
    let a = repo.create(Sample::with_name("a".into())).unwrap();
    let b = repo.create(Sample::with_name("b".into())).unwrap();
    repo.delete_by_id(&b.id).unwrap();
    let c = repo.create(Sample::with_name("c".into())).unwrap();
    assert_eq!((a.id, b.id, c.id), (0, 1, 2));
    repo.delete_all().unwrap();
    let d = repo.create(Sample::with_name("d".into())).unwrap();
    assert_eq!(d.id, 3);
    assert!(!d.is_new());
}

#[test]
fn create_ignores_the_given_id() {
    let mut repo = SampleRepositoryMap::new();
    let s = repo.create(Sample::new(42, "x".into())).unwrap();
    assert_eq!(s.id, 0);
    assert_eq!(s.name, "x");
}

#[test]
fn find_by_id_of_absent_id_is_not_found() {
    let mut repo = SampleRepositoryMap::new();
    assert_eq!(repo.find_by_id(&0).unwrap_err(), Error::NotFound);
    repo.create(Sample::with_name("a".into())).unwrap();
    assert_eq!(repo.find_by_id(&7).unwrap_err(), Error::NotFound);
    let found = repo.find_by_id(&0).unwrap();
    assert_eq!((found.id, found.name.as_str()), (0, "a"));
}

#[test]
fn find_all_by_id_omits_absent_ids() {
    let mut repo = SampleRepositoryMap::new();
    repo.create(Sample::with_name("a".into())).unwrap();
    repo.create(Sample::with_name("b".into())).unwrap();
    repo.create(Sample::with_name("c".into())).unwrap();
    let found = repo.find_all_by_id(vec![9, 2, 0, 2]).unwrap();
    assert_eq!(pairs(&found), vec![(0, "a".to_string()), (2, "c".to_string())]);
    assert!(repo.find_all_by_id(vec![5]).unwrap().is_empty());
    assert!(repo.find_all_by_id(vec![]).unwrap().is_empty());
}

#[test]
fn delete_by_id_then_find_by_id_is_not_found() {
    let mut repo = SampleRepositoryMap::new();
    repo.create(Sample::with_name("a".into())).unwrap();
    repo.delete_by_id(&0).unwrap();
    assert_eq!(repo.find_by_id(&0).unwrap_err(), Error::NotFound);
    repo.delete_by_id(&5).unwrap();
    assert_eq!(repo.find_by_id(&5).unwrap_err(), Error::NotFound);
}

#[test]
fn delete_all_then_find_all_is_empty() {
    let mut repo = SampleRepositoryMap::new();
    repo.create(Sample::with_name("a".into())).unwrap();
    repo.create(Sample::with_name("b".into())).unwrap();
    repo.delete_all().unwrap();
    assert!(repo.find_all().unwrap().is_empty());
}

#[test]
fn delete_removes_the_entity_by_its_id() {
    let mut repo = SampleRepositoryMap::new();
    let a = repo.create(Sample::with_name("a".into())).unwrap();
    repo.create(Sample::with_name("b".into())).unwrap();
    repo.delete(a).unwrap();
    assert_eq!(pairs(&repo.find_all().unwrap()), vec![(1, "b".to_string())]);
}

#[test]
fn update_replaces_or_adds_and_refuses_new_entities() {
    let mut repo = SampleRepositoryMap::new();
    repo.create(Sample::with_name("a".into())).unwrap();
    repo.create(Sample::with_name("b".into())).unwrap();
    let u = repo.update(Sample::new(0, "z".into())).unwrap();
    assert_eq!((u.id, u.name.as_str()), (0, "z"));
    assert_eq!(
        pairs(&repo.find_all().unwrap()),
        vec![(0, "z".to_string()), (1, "b".to_string())]
    );
    repo.update(Sample::new(10, "t".into())).unwrap();
    let next = repo.create(Sample::with_name("n".into())).unwrap();
    assert_eq!(next.id, 11);
    assert!(matches!(
        repo.update(Sample::with_name("q".into())),
        Err(Error::Validation(_))
    ));
    assert_eq!(repo.find_all().unwrap().len(), 4);
}

#[test]
fn entities_built_from_a_name_are_new() {
    let s = Sample::with_name("s".into());
    assert_eq!(s.id, NEW_ENTITY_ID);
    assert!(s.is_new());
    assert_eq!(Sample::from_name("t".into()).id, NEW_ENTITY_ID);
    let stored = Sample::new(3, "s".into());
    assert!(!stored.is_new());
    assert_eq!(*stored.get_id(), 3);
    let u = User::with_name("u".into());
    assert_eq!((u.id, u.name.as_str(), u.email.as_str()), (-1, "u", "abc@d.e"));
    let v = User::new(5, "v".into());
    assert_eq!((*v.get_id(), v.email.as_str()), (5, "abc@d.e"));
    assert!(!v.is_new());
}

#[test]
fn errors_map_to_status_codes() {
    assert_eq!(Error::NotFound.status(), 404);
    assert_eq!(Error::Unauthorized.status(), 401);
    assert_eq!(Error::Validation("bad".into()).status(), 400);
    assert_eq!(Error::Store("down".into()).status(), 400);
    assert_eq!(Error::NotImplemented.status(), 400);
    assert_eq!(Error::from_store_failure(true, "x".into()), Error::NotFound);
    assert_eq!(
        Error::from_store_failure(false, "x".into()),
        Error::Store("x".into())
    );
}

#[test]
fn save_creates_new_entities_and_updates_stored_ones() {
    let mut repo = SampleRepositoryMap::new();
    let a = repo.save(Sample::with_name("a".into())).unwrap();
    assert_eq!((a.id, a.name.as_str()), (0, "a"));
    let b = repo.save(Sample::new(0, "b".into())).unwrap();
    assert_eq!((b.id, b.name.as_str()), (0, "b"));
    let c = repo.save(Sample::new(4, "c".into())).unwrap();
    assert_eq!(c.id, 4);
    assert_eq!(
        pairs(&repo.find_all().unwrap()),
        vec![(0, "b".to_string()), (4, "c".to_string())]
    );
    assert_eq!(repo.save(Sample::with_name("d".into())).unwrap().id, 5);
}

#[test]
fn the_memory_store_holds_users_too() {
    let mut repo: MemoryRepository<User> = MemoryRepository::new();
    let a = repo.create(User::with_name("ann".into())).unwrap();
    assert_eq!((a.id, a.name.as_str(), a.email.as_str()), (0, "ann", "abc@d.e"));
    let b = repo.save(User::with_name("bob".into())).unwrap();
    assert_eq!(b.id, 1);
    let found = repo.find_by_id(&1).unwrap();
    assert_eq!(found.name, "bob");
    repo.delete(found).unwrap();
    assert_eq!(repo.find_by_id(&1).unwrap_err(), Error::NotFound);
    assert_eq!(repo.find_all().unwrap().len(), 1);
}
