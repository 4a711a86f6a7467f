use std::cell::Cell;
use std::cmp::Ordering;
use std::collections::HashMap;
use std::mem::{align_of, size_of};
use std::rc::Rc;

use ecow::layout;
use ecow::EcoVec;

/// Counts how often it is cloned.
struct Counted(Rc<Cell<usize>>, u32);

impl Clone for Counted {
    fn clone(&self) -> Self {
        self.0.set(self.0.get() + 1);
        Counted(self.0.clone(), self.1)
    }
}

fn counted(clones: &Rc<Cell<usize>>, n: u32) -> EcoVec<Counted> {
    let mut vec = EcoVec::new();
    for i in 0..n {
        vec.push(Counted(clones.clone(), i));
    }
    vec
}

fn numbers(n: u32) -> EcoVec<u32> {
    let mut vec = EcoVec::new();
    for i in 0..n {
        vec.push(i);
    }
    vec
}

#[test]
fn one_word() {
    assert_eq!(size_of::<EcoVec<u8>>(), size_of::<usize>());
    assert_eq!(size_of::<Option<EcoVec<u8>>>(), size_of::<usize>());
    assert_eq!(size_of::<Option<EcoVec<String>>>(), size_of::<usize>());
}

#[test]
fn new_is_empty() {
    let vec: EcoVec<u32> = EcoVec::new();
    assert!(vec.is_empty());
    assert_eq!(vec.len(), 0);
    assert_eq!(vec.capacity(), 0);
    assert_eq!(vec.as_slice(), &[] as &[u32]);
    let default: EcoVec<u32> = EcoVec::default();
    assert_eq!(default, vec);
    assert_eq!(default.capacity(), 0);
}

#[test]
fn with_capacity_is_exact() {
    assert_eq!(EcoVec::<u32>::with_capacity(0).capacity(), 0);
    assert_eq!(EcoVec::<u32>::with_capacity(1).capacity(), 1);
    assert_eq!(EcoVec::<u8>::with_capacity(13).capacity(), 13);
    assert_eq!(EcoVec::<()>::with_capacity(1).capacity(), isize::MAX as usize);
}

#[test]
fn minimum_capacity() {
    let mut bytes: EcoVec<u8> = EcoVec::new();
    bytes.push(0);
    assert_eq!(bytes.capacity(), 8);
    let mut words: EcoVec<[u64; 4]> = EcoVec::new();
    words.push([0; 4]);
    assert_eq!(words.capacity(), 4);
    let mut large: EcoVec<[u8; 33]> = EcoVec::new();
    large.push([0; 33]);
    assert_eq!(large.capacity(), 1);
    let mut units: EcoVec<()> = EcoVec::new();
    units.push(());
    assert_eq!(units.capacity(), isize::MAX as usize);
}

#[test]
fn growth_doubles() {
    let mut vec: EcoVec<[u8; 40]> = EcoVec::new();
    let mut capacities = Vec::new();
    for _ in 0..9 {
        vec.push([0; 40]);
        capacities.push(vec.capacity());
    }
    assert_eq!(capacities, [1, 2, 4, 4, 8, 8, 8, 8, 16]);
}

#[test]
fn reserve_makes_room() {
    let mut vec = numbers(3);
    assert_eq!(vec.capacity(), 4);
    vec.reserve(1);
    assert_eq!(vec.capacity(), 4);
    vec.reserve(2);
    assert_eq!(vec.capacity(), 8);
    vec.reserve(100);
    assert_eq!(vec.capacity(), 103);
    for i in 0..100 {
        vec.push(i);
        assert_eq!(vec.capacity(), 103);
    }
    vec.push(0);
    assert_eq!(vec.capacity(), 206);
    assert_eq!(&vec[..3], &[0, 1, 2]);
}

#[test]
fn reserving_again_changes_nothing() {
    let mut vec = numbers(3);
    vec.reserve(20);
    let (capacity, place) = (vec.capacity(), vec.as_ptr());
    vec.reserve(20);
    vec.reserve(7);
    vec.reserve(0);
    assert_eq!(vec.capacity(), capacity);
    assert_eq!(vec.as_ptr(), place);
    assert_eq!(vec, [0, 1, 2]);
}

#[test]
fn reserve_of_shared() {
    let mut vec = numbers(5);
    assert_eq!(vec.capacity(), 8);
    let other = vec.clone();
    vec.reserve(0);
    assert_eq!(vec.capacity(), 5);
    assert_eq!(other.capacity(), 8);
    let mut third = other.clone();
    third.reserve(1);
    assert_eq!(third.capacity(), 10);
    assert_eq!(third, other);
}

#[test]
fn sizes() {
    let word = size_of::<usize>();
    assert_eq!(layout::align::<u8>(), word);
    assert_eq!(layout::offset::<u8>(), 3 * word);
    assert_eq!(layout::size::<u8>(5), Some(3 * word + 5));
    assert_eq!(layout::size::<u64>(5), Some(3 * word + 40));
    assert_eq!(layout::size::<()>(usize::MAX), Some(3 * word));
    assert_eq!(layout::size::<u64>(usize::MAX), None);
    let limit = isize::MAX as usize - word - 1 - 3 * word;
    assert_eq!(layout::size::<u8>(limit), Some(3 * word + limit));
    assert_eq!(layout::size::<u8>(limit + 1), None);
    assert_eq!(layout::size::<u8>(usize::MAX), None);
    assert_eq!(layout::min_cap::<u8>(), 8);
    assert_eq!(layout::min_cap::<()>(), 4);
    assert_eq!(layout::min_cap::<[u8; 32]>(), 4);
    assert_eq!(layout::min_cap::<[u8; 33]>(), 1);
}

#[test]
fn sizes_of_aligned() {
    let header = 3 * size_of::<usize>();
    let align = align_of::<u128>();
    assert_eq!(layout::align::<u128>(), align.max(size_of::<usize>()));
    let offset = layout::offset::<u128>();
    assert_eq!(offset % align, 0);
    assert!(header <= offset && offset < header + layout::align::<u128>());
    assert_eq!(layout::size::<u128>(5), Some(offset + 80));
    if size_of::<usize>() == 8 && align == 16 {
        assert_eq!(layout::align::<u128>(), 16);
        assert_eq!(offset, 32);
        assert_eq!(layout::size::<u128>(5), Some(112));
        let limit = (isize::MAX as usize - 16 - 1 - 32) / 16;
        assert_eq!(layout::size::<u128>(limit), Some(32 + 16 * limit));
        assert_eq!(layout::size::<u128>(limit + 1), None);
    }
    assert_eq!(layout::offset::<u16>(), header);
    assert_eq!(layout::offset::<u64>() % align_of::<u64>(), 0);
}

#[test]
fn capacity_limits() {
    let max = isize::MAX as usize;
    assert_eq!(layout::checked_capacity::<u8>(7), Some(7));
    assert_eq!(layout::checked_capacity::<u8>(max), None);
    assert_eq!(layout::checked_capacity::<()>(7), Some(max));
    assert_eq!(layout::checked_capacity::<()>(max + 1), None);
    assert_eq!(layout::reserved_capacity::<u8>(3, 8, 5), Some(8));
    assert_eq!(layout::reserved_capacity::<u8>(3, 8, 6), Some(16));
    assert_eq!(layout::reserved_capacity::<u8>(3, 8, 60), Some(63));
    assert_eq!(layout::reserved_capacity::<u8>(3, 8, usize::MAX), None);
    assert_eq!(layout::reserved_capacity::<u8>(0, 0, max), None);
}

#[test]
fn unshared_is_not_cloned() {
    let clones = Rc::new(Cell::new(0));
    let mut vec = counted(&clones, 4);
    vec.insert(1, Counted(clones.clone(), 9));
    vec.remove(0);
    vec.pop();
    vec.truncate(2);
    vec.retain(|x| x.1 > 1);
    vec.make_mut()[0].1 = 7;
    vec.reserve(50);
    vec.clear();
    assert_eq!(clones.get(), 0);
}

#[test]
fn shared_is_cloned_once() {
    let clones = Rc::new(Cell::new(0));
    let vec = counted(&clones, 3);
    let mut other = vec.clone();
    assert_eq!(clones.get(), 0);
    other.push(Counted(clones.clone(), 3));
    assert_eq!(clones.get(), 3);
    other.push(Counted(clones.clone(), 4));
    assert_eq!(clones.get(), 3);
    assert_eq!(vec.len(), 3);
    assert_eq!(other.len(), 5);
}

#[test]
fn shared_is_not_cloned_without_need() {
    let clones = Rc::new(Cell::new(0));
    let vec = counted(&clones, 3);
    let mut other = vec.clone();
    other.truncate(3);
    other.clear();
    assert_eq!(clones.get(), 0);
    assert_eq!(other.pop().map(|x| x.1), None);
    let mut third = vec.clone();
    assert!(third.extend(std::iter::empty()));
    assert_eq!(clones.get(), 0);
    assert_eq!(vec.len(), 3);
}

#[test]
fn last_owner_is_not_cloned() {
    let clones = Rc::new(Cell::new(0));
    let vec = counted(&clones, 3);
    let mut other = vec.clone();
    drop(vec);
    other.push(Counted(clones.clone(), 3));
    assert_eq!(clones.get(), 0);
}

#[test]
fn elements_are_dropped() {
    let token = Rc::new(());
    let mut vec = EcoVec::from_elem(token.clone(), 5);
    assert_eq!(Rc::strong_count(&token), 6);
    vec.truncate(3);
    assert_eq!(Rc::strong_count(&token), 4);
    drop(vec.pop());
    assert_eq!(Rc::strong_count(&token), 3);
    let other = vec.clone();
    assert_eq!(Rc::strong_count(&token), 3);
    vec.clear();
    assert_eq!(Rc::strong_count(&token), 3);
    drop(other);
    assert_eq!(Rc::strong_count(&token), 1);
}

#[test]
fn copy_on_write_leaves_the_others() {
    let vec = numbers(3);
    let mut pushed = vec.clone();
    pushed.push(7);
    let mut popped = vec.clone();
    assert_eq!(popped.pop(), Some(2));
    let mut inserted = vec.clone();
    inserted.insert(0, 7);
    let mut removed = vec.clone();
    assert_eq!(removed.remove(0), 0);
    let mut truncated = vec.clone();
    truncated.truncate(1);
    let mut cleared = vec.clone();
    cleared.clear();
    let mut retained = vec.clone();
    retained.retain(|x| *x != 1);
    let mut changed = vec.clone();
    changed.make_mut()[2] = 9;
    assert_eq!(vec, [0, 1, 2]);
    assert_eq!(pushed, [0, 1, 2, 7]);
    assert_eq!(popped, [0, 1]);
    assert_eq!(inserted, [7, 0, 1, 2]);
    assert_eq!(removed, [1, 2]);
    assert_eq!(truncated, [0]);
    assert!(cleared.is_empty());
    assert_eq!(retained, [0, 2]);
    assert_eq!(changed, [0, 1, 9]);
}

#[test]
fn clear_keeps_own_capacity() {
    let mut vec = numbers(5);
    let other = vec.clone();
    vec.clear();
    assert_eq!(vec.capacity(), 0);
    assert_eq!(other, [0, 1, 2, 3, 4]);
    let mut other = other;
    other.clear();
    assert_eq!(other.capacity(), 8);
    let mut empty = EcoVec::<u32>::with_capacity(6);
    let _share = empty.clone();
    empty.clear();
    assert_eq!(empty.capacity(), 6);
}

#[test]
fn push_to_shared_with_room() {
    let vec = numbers(5);
    assert_eq!(vec.capacity(), 8);
    let mut other = vec.clone();
    other.push(5);
    assert_eq!(other, [0, 1, 2, 3, 4, 5]);
    assert_eq!(other.capacity(), 6);
    let mut third = vec.clone();
    third.insert(2, 9);
    assert_eq!(third, [0, 1, 9, 2, 3, 4]);
    assert_eq!(vec, [0, 1, 2, 3, 4]);
}

#[test]
fn push_to_shared_without_elements() {
    let vec = EcoVec::<u32>::with_capacity(10);
    let mut other = vec.clone();
    other.push(1);
    assert_eq!(other, [1]);
    assert_eq!(other.capacity(), 4);
    assert!(vec.is_empty());
    assert_eq!(vec.capacity(), 10);
}

#[test]
fn push_to_shared_that_is_full() {
    let mut vec: EcoVec<u32> = EcoVec::with_capacity(1);
    vec.push(1);
    let mut other = vec.clone();
    other.push(2);
    assert_eq!(other.capacity(), 4);
    let vec = numbers(8);
    assert_eq!(vec.capacity(), 8);
    let mut other = vec.clone();
    other.push(8);
    assert_eq!(other.capacity(), 16);
}

#[test]
fn pop_undoes_push() {
    let mut vec = numbers(4);
    vec.push(9);
    assert_eq!(vec.pop(), Some(9));
    assert_eq!(vec, [0, 1, 2, 3]);
    let mut empty: EcoVec<u32> = EcoVec::new();
    assert_eq!(empty.pop(), None);
}

#[test]
fn remove_undoes_insert() {
    for index in 0..5 {
        let mut vec = numbers(4);
        vec.insert(index, 9);
        assert_eq!(vec[index], 9);
        assert_eq!(vec.remove(index), 9);
        assert_eq!(vec, [0, 1, 2, 3]);
    }
}

#[test]
fn ends_are_positions() {
    let mut pushed = numbers(3);
    pushed.push(8);
    let mut inserted = numbers(3);
    inserted.insert(3, 8);
    assert_eq!(pushed, inserted);
    assert_eq!(pushed.capacity(), inserted.capacity());
    assert_eq!(pushed.pop(), Some(inserted.remove(3)));
    assert_eq!(pushed, inserted);
}

#[test]
fn truncate_keeps_the_first() {
    let mut vec = numbers(5);
    vec.truncate(7);
    assert_eq!(vec.len(), 5);
    vec.truncate(5);
    assert_eq!(vec.len(), 5);
    vec.truncate(2);
    assert_eq!(vec, [0, 1]);
    assert_eq!(vec.capacity(), 8);
    vec.truncate(0);
    assert!(vec.is_empty());
    let mut shared = numbers(5);
    let _other = shared.clone();
    shared.truncate(2);
    assert_eq!(shared.capacity(), 5);
}

#[test]
fn retain_is_filter() {
    let mut vec = numbers(10);
    vec.retain(|x| *x % 3 == 1);
    assert_eq!(vec, [1, 4, 7]);
    assert_eq!(vec.capacity(), 16);
    vec.retain(|_| true);
    assert_eq!(vec, [1, 4, 7]);
    vec.retain(|_| false);
    assert!(vec.is_empty());
    vec.retain(|_| false);
    assert!(vec.is_empty());
}

#[test]
fn retain_may_change_elements() {
    let mut vec = numbers(6);
    let mut seen = Vec::new();
    vec.retain(|x| {
        seen.push(*x);
        *x *= 10;
        *x != 20
    });
    assert_eq!(seen, [0, 1, 2, 3, 4, 5]);
    assert_eq!(vec, [0, 10, 30, 40, 50]);
}

#[test]
fn retain_of_shared() {
    let mut vec = numbers(6);
    let other = vec.clone();
    vec.retain(|x| *x > 3);
    assert_eq!(vec, [4, 5]);
    assert_eq!(vec.capacity(), 6);
    assert_eq!(other, [0, 1, 2, 3, 4, 5]);
}

#[test]
fn make_mut_changes_in_place() {
    let mut vec = numbers(3);
    vec.make_mut().reverse();
    assert_eq!(vec, [2, 1, 0]);
    let other = vec.clone();
    vec.make_mut()[1] = 5;
    assert_eq!(vec, [2, 5, 0]);
    assert_eq!(vec.capacity(), 4);
    assert_eq!(other, [2, 1, 0]);
    let mut empty: EcoVec<u32> = EcoVec::new();
    assert!(empty.make_mut().is_empty());
}

#[test]
fn from_elem_clones() {
    let clones = Rc::new(Cell::new(0));
    let vec = EcoVec::from_elem(Counted(clones.clone(), 6), 5);
    assert_eq!(vec.len(), 5);
    assert!(vec.iter().all(|x| x.1 == 6));
    assert_eq!(clones.get(), 5);
    assert_eq!(vec.capacity(), 5);
    assert_eq!(EcoVec::from_elem(1u8, 0).capacity(), 0);
}

#[test]
fn from_slice_and_vec() {
    let vec = EcoVec::from_slice(&[1, 2, 3]);
    assert_eq!(vec, [1, 2, 3]);
    assert_eq!(vec.capacity(), 4);
    let vec = EcoVec::from_slice(&[1, 2, 3, 4, 5]);
    assert_eq!(vec.capacity(), 5);
    assert_eq!(EcoVec::<u32>::from_slice(&[]).capacity(), 0);
    let mut source = Vec::with_capacity(100);
    source.extend([1, 2, 3, 4, 5]);
    let vec = EcoVec::from_vec(source);
    assert_eq!(vec, [1, 2, 3, 4, 5]);
    assert_eq!(vec.capacity(), 5);
    assert_eq!(EcoVec::from_vec(vec![(); 3]).capacity(), isize::MAX as usize);
}

#[test]
fn collecting_announced_elements() {
    let vec: EcoVec<u32> = EcoVec::from_iter(0..7).unwrap();
    assert_eq!(vec, [0, 1, 2, 3, 4, 5, 6]);
    assert_eq!(vec.capacity(), 7);
    let same = EcoVec::from_slice(&[0, 1, 2, 3, 4, 5, 6]);
    assert_eq!(vec.capacity(), same.capacity());
}

#[test]
fn collecting_without_announcement() {
    let vec: EcoVec<u32> = EcoVec::from_iter((0..20).filter(|x| x % 2 == 0)).unwrap();
    assert_eq!(vec, [0, 2, 4, 6, 8, 10, 12, 14, 16, 18]);
    assert_eq!(vec.capacity(), 16);
    assert_eq!(vec.capacity(), numbers(10).capacity());
}

#[test]
fn extending() {
    let mut vec = numbers(3);
    assert!(vec.extend(10..12));
    assert_eq!(vec, [0, 1, 2, 10, 11]);
    assert_eq!(vec.capacity(), 8);
    let other = vec.clone();
    assert!(vec.extend([5].into_iter().filter(|_| true)));
    assert_eq!(vec, [0, 1, 2, 10, 11, 5]);
    assert_eq!(vec.capacity(), 6);
    assert_eq!(other.len(), 5);
    assert!(vec.extend_with_hint(20..22, 1));
    assert_eq!(vec, [0, 1, 2, 10, 11, 5, 20, 21]);
    assert_eq!(vec.capacity(), 12);
}

/// Announces more elements than there can be.
struct Boastful;

impl Iterator for Boastful {
    type Item = u32;

    fn next(&mut self) -> Option<u32> {
        None
    }

    fn size_hint(&self) -> (usize, Option<usize>) {
        (usize::MAX, None)
    }
}

#[test]
fn extending_by_too_many() {
    let mut vec = numbers(3);
    assert!(!vec.extend(Boastful));
    assert_eq!(vec, [0, 1, 2]);
    assert_eq!(vec.capacity(), 4);
    assert!(EcoVec::from_iter(Boastful).is_none());
    assert!(!vec.extend_with_hint(0..1, isize::MAX as usize));
    assert_eq!(vec, [0, 1, 2]);
    let other = vec.clone();
    assert!(!vec.extend(Boastful));
    assert_eq!(vec, other);
    assert!(vec.extend_with_hint(std::iter::empty(), 9));
    assert_eq!(vec, other);
    assert_eq!(vec.capacity(), 12);
}

/// Yields elements again after it was at its end.
struct Restarting(u32);

impl Iterator for Restarting {
    type Item = u32;

    fn next(&mut self) -> Option<u32> {
        self.0 += 1;
        if self.0 % 4 == 0 {
            None
        } else {
            Some(self.0)
        }
    }
}

#[test]
fn extending_stops_at_the_first_end() {
    let mut vec = numbers(1);
    assert!(vec.extend(Restarting(0)));
    assert_eq!(vec, [0, 1, 2, 3]);
    assert_eq!(EcoVec::from_iter(Restarting(4)).unwrap(), [5, 6, 7]);
    let mut other = vec.clone();
    assert!(other.extend(Restarting(3)));
    assert_eq!(other.as_ptr(), vec.as_ptr());
    assert!(other.extend_with_hint(Restarting(5), 1));
    assert_eq!(other, [0, 1, 2, 3, 6, 7]);
    assert_eq!(vec.len(), 4);
}

#[test]
fn equality() {
    let a = numbers(3);
    let b = EcoVec::from_slice(&[0, 1, 2]);
    let c = EcoVec::from_slice(&[0, 1, 3]);
    assert!(a == b && b == a);
    assert!(a != c);
    assert!(a != numbers(2));
    assert!(a == [0, 1, 2] && [0, 1, 2] == a);
    assert!(a == vec![0, 1, 2] && vec![0, 1, 2] == a);
    assert!(&a == b.as_slice() || a == *b.as_slice());
    assert!(*b.as_slice() == a);
    assert!(a != [0, 1] && a != [0, 1, 2, 3]);
    assert!(EcoVec::from_slice(&[f64::NAN]) != EcoVec::from_slice(&[f64::NAN]));
    assert!(EcoVec::from_slice(&[0.0]) == EcoVec::from_slice(&[-0.0]));
}

#[test]
fn ordering() {
    let a = EcoVec::from_slice(&[1, 2, 3]);
    let b = EcoVec::from_slice(&[1, 3]);
    let c = EcoVec::from_slice(&[1, 2]);
    assert!(a < b && c < a && c < b);
    assert!(b > a && a >= a.clone() && a <= a.clone());
    assert_eq!(a.partial_cmp(&b), Some(Ordering::Less));
    assert_eq!(a.cmp(&b), Ordering::Less);
    assert_eq!(b.cmp(&a), Ordering::Greater);
    assert_eq!(a.cmp(&c), Ordering::Greater);
    assert_eq!(a.cmp(&a.clone()), Ordering::Equal);
    assert_eq!(EcoVec::<u8>::new().cmp(&EcoVec::new()), Ordering::Equal);
    let nan = EcoVec::from_slice(&[1.0, f64::NAN]);
    assert_eq!(nan.partial_cmp(&nan.clone()), None);
    let less = EcoVec::from_slice(&[0.5, f64::NAN]);
    assert_eq!(less.partial_cmp(&nan), Some(Ordering::Less));
}

#[test]
fn debug_is_that_of_the_slice() {
    assert_eq!(format!("{:?}", numbers(3)), "[0, 1, 2]");
    assert_eq!(format!("{:?}", EcoVec::<u8>::new()), "[]");
    assert_eq!(format!("{:#?}", EcoVec::from_slice(&["a"])), "[\n    \"a\",\n]");
}

#[test]
fn hash_is_that_of_the_slice() {
    let mut map: HashMap<EcoVec<u32>, &str> = HashMap::new();
    map.insert(numbers(3), "three");
    assert_eq!(map.get(&[0, 1, 2][..]), Some(&"three"));
    assert_eq!(map.get(&EcoVec::from_slice(&[0, 1, 2])), Some(&"three"));
    assert_eq!(map.get(&[0, 1][..]), None);
}

#[test]
fn slices() {
    let vec = numbers(4);
    let by_ref: &[u32] = vec.as_ref();
    assert_eq!(by_ref, &[0, 1, 2, 3]);
    let borrowed: &[u32] = std::borrow::Borrow::borrow(&vec);
    assert_eq!(borrowed, vec.as_slice());
    assert_eq!(&vec[1..3], &[1, 2]);
    assert_eq!(vec.iter().sum::<u32>(), 6);
}

#[test]
fn without_size() {
    let mut vec = EcoVec::new();
    for _ in 0..100 {
        vec.push(());
    }
    assert_eq!(vec.len(), 100);
    let mut other = vec.clone();
    other.truncate(40);
    assert_eq!(other.len(), 40);
    assert_eq!(other.capacity(), isize::MAX as usize);
    assert_eq!(vec.len(), 100);
    vec.retain(|_| false);
    assert!(vec.is_empty());
}

fn is_send_and_sync<T: Send + Sync>(_: &T) -> bool {
    true
}

#[test]
fn can_cross_threads() {
    assert!(is_send_and_sync(&numbers(3)));
    assert!(is_send_and_sync(&EcoVec::<String>::new()));
}
