use ecs_world::access::{Access, BorrowError};

#[test]
fn free_column_grants_either_view() {
    let mut access = Access::Free;
    assert_eq!(access.share(), Ok(()));
    assert_eq!(access, Access::Shared(1));

    let mut access = Access::Free;
    assert_eq!(access.lock(), Ok(()));
    assert_eq!(access, Access::Exclusive);
}

#[test]
fn shared_views_are_counted() {
    let mut access = Access::Free;
    assert_eq!(access.share(), Ok(()));
    assert_eq!(access.share(), Ok(()));
    assert_eq!(access.share(), Ok(()));
    assert_eq!(access, Access::Shared(3));
    access.unshare();
    assert_eq!(access, Access::Shared(2));
    access.unshare();
    access.unshare();
    assert_eq!(access, Access::Free);
}

#[test]
fn lock_is_refused_while_shared() {
    let mut access = Access::Shared(2);
    assert_eq!(access.lock(), Err(BorrowError::AlreadyBorrowed));
    assert_eq!(access, Access::Shared(2));
}

#[test]
fn nothing_is_granted_while_locked() {
    let mut access = Access::Exclusive;
    assert_eq!(access.lock(), Err(BorrowError::AlreadyMutablyBorrowed));
    assert_eq!(access.share(), Err(BorrowError::AlreadyMutablyBorrowed));
    assert_eq!(access, Access::Exclusive);
    access.unlock();
    assert_eq!(access, Access::Free);
}

#[test]
fn share_is_refused_when_the_count_is_full() {
    let mut access = Access::Shared(usize::MAX);
    assert_eq!(access.share(), Err(BorrowError::TooManyBorrows));
    assert_eq!(access, Access::Shared(usize::MAX));
    access.unshare();
    assert_eq!(access, Access::Shared(usize::MAX - 1));
    assert_eq!(access.share(), Ok(()));
}

#[test]
fn handing_back_what_is_not_out_changes_nothing() {
    let mut access = Access::Free;
    access.unshare();
    assert_eq!(access, Access::Free);
    access.unlock();
    assert_eq!(access, Access::Free);

    let mut access = Access::Shared(2);
    access.unlock();
    assert_eq!(access, Access::Shared(2));

    let mut access = Access::Exclusive;
    access.unshare();
    assert_eq!(access, Access::Exclusive);
}
