use slab::{IntoIter, IterMut, Key, Slab};

#[test]
fn iter_mut() {
    let mut slab = slab::Slab::new();
    slab.insert(1);
    let key = slab.insert(2);
    slab.insert(3);
    slab.remove(key);
    let mut iter = IterMut::new(&mut slab);
    assert_eq!(iter.next(), Some((0.into(), &mut 1)));
    assert_eq!(iter.next(), Some((2.into(), &mut 3)));
    assert_eq!(iter.next(), None);
}

#[test]
fn iter_yields_occupied_ascending() {
    let mut slab: Slab<&str> = Slab::new();
    let ka = slab.insert("a");
    let kb = slab.insert("b");
    let kc = slab.insert("c");
    slab.remove(kb);
    let mut iter = slab.iter();
    assert_eq!(iter.next(), Some((ka, &"a")));
    assert_eq!(iter.next(), Some((kc, &"c")));
    assert_eq!(iter.next(), None);
}

#[test]
fn iter_on_empty_slab() {
    let slab: Slab<u32> = Slab::new();
    let mut iter = slab.iter();
    assert_eq!(iter.next(), None);
    assert_eq!(iter.next(), None);
}

#[test]
fn exhausted_iterators_stay_exhausted() {
    let mut slab: Slab<u32> = Slab::new();
    slab.insert(7);
    let mut iter = slab.iter();
    assert!(iter.next().is_some());
    for _ in 0..5 {
        assert_eq!(iter.next(), None);
    }
    let mut values = slab.into_values();
    assert_eq!(values.next(), Some(7));
    for _ in 0..5 {
        assert_eq!(values.next(), None);
    }
}

#[test]
fn iter_mut_writes_reach_the_slab() {
    let mut slab: Slab<u32> = Slab::new();
    let k0 = slab.insert(10);
    let k1 = slab.insert(20);
    let k2 = slab.insert(30);
    slab.remove(k1);
    {
        let mut iter = slab.iter_mut();
        while let Some((_, v)) = iter.next() {
            *v += 1;
        }
    }
    assert_eq!(slab.get(k0), Some(&11));
    assert_eq!(slab.get(k1), None);
    assert_eq!(slab.get(k2), Some(&31));
}

#[test]
fn values_mut_writes_reach_the_slab() {
    let mut slab: Slab<u32> = Slab::new();
    let k0 = slab.insert(5);
    let k1 = slab.insert(6);
    {
        let mut values = slab.values_mut();
        while let Some(v) = values.next() {
            *v *= 10;
        }
        assert_eq!(values.next(), None);
    }
    assert_eq!(slab.get(k0), Some(&50));
    assert_eq!(slab.get(k1), Some(&60));
}

#[test]
fn into_iter_consumes_and_matches_borrowing_order() {
    let build = || {
        let mut slab: Slab<u32> = Slab::new();
        slab.insert(100);
        let key = slab.insert(200);
        slab.insert(300);
        slab.remove(key);
        slab
    };

    let slab = build();
    let mut borrowed: Vec<(Key, u32)> = Vec::new();
    let mut iter = slab.iter();
    while let Some((k, v)) = iter.next() {
        borrowed.push((k, *v));
    }

    let mut owned: Vec<(Key, u32)> = Vec::new();
    let mut into_iter = IntoIter::new(build());
    while let Some((k, v)) = into_iter.next() {
        owned.push((k, v));
    }
    assert_eq!(into_iter.next(), None);

    assert_eq!(borrowed, owned);
    assert_eq!(owned, vec![(Key(0), 100), (Key(2), 300)]);
}

#[test]
fn into_values_yields_values_only() {
    let mut slab: Slab<String> = Slab::new();
    slab.insert(String::from("x"));
    let key = slab.insert(String::from("y"));
    slab.insert(String::from("z"));
    slab.remove(key);
    let mut values = slab.into_values();
    assert_eq!(values.next(), Some(String::from("x")));
    assert_eq!(values.next(), Some(String::from("z")));
    assert_eq!(values.next(), None);
}

#[test]
fn round_trip_survivors_keep_their_keys() {
    let mut slab: Slab<u32> = Slab::new();
    let mut keys: Vec<Key> = Vec::new();
    for v in 0..5 {
        keys.push(slab.insert(v));
    }
    assert_eq!(keys, vec![Key(0), Key(1), Key(2), Key(3), Key(4)]);
    assert_eq!(slab.remove(keys[1]), Some(1));
    assert_eq!(slab.remove(keys[3]), Some(3));

    let mut survivors: Vec<(Key, u32)> = Vec::new();
    let mut iter = slab.iter();
    while let Some((k, v)) = iter.next() {
        survivors.push((k, *v));
    }
    assert_eq!(survivors, vec![(Key(0), 0), (Key(2), 2), (Key(4), 4)]);
}
