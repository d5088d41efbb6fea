//! The object store as the upload pipeline sees it: contents under opaque
//! keys, where a put under a key that is taken overwrites, and where the
//! store can be out of reach.

use vstd::prelude::*;

verus! {

/// One stored object.
#[derive(Clone, Debug, PartialEq, Eq)]
pub struct StoredObject {
    pub key: String,
    pub content: Vec<u8>,
}

/// What a [`StoredObject`] is in contracts.
pub ghost struct ObjectView {
    pub key: Seq<char>,
    pub content: Seq<u8>,
}

impl View for StoredObject {
    type V = ObjectView;

    open spec fn view(&self) -> ObjectView {
        ObjectView { key: self.key@, content: self.content@ }
    }
}

/// The store as a mathematical value: from key to content.
pub type Bucket = Map<Seq<char>, Seq<u8>>;

/// The views of a list of objects, in order.
pub open spec fn object_views(objects: Seq<StoredObject>) -> Seq<ObjectView> {
    Seq::new(objects.len(), |i: int| objects[i]@)
}

/// No two objects have the same key.
pub open spec fn unique_object_keys(objects: Seq<ObjectView>) -> bool {
    forall|i: int, j: int| 0 <= i < j < objects.len() ==> (#[trigger] objects[i]).key != (#[trigger] objects[j]).key
}

/// Some object has this key.
pub open spec fn has_object(objects: Seq<ObjectView>, key: Seq<char>) -> bool {
    exists|i: int| 0 <= i < objects.len() && (#[trigger] objects[i]).key == key
}

/// The place of an object with this key.
pub open spec fn index_of_object(objects: Seq<ObjectView>, key: Seq<char>) -> int {
    choose|i: int| 0 <= i < objects.len() && (#[trigger] objects[i]).key == key
}

/// The bucket that a list of objects stands for.
pub open spec fn bucket_of(objects: Seq<ObjectView>) -> Bucket {
    Map::new(
        |key: Seq<char>| has_object(objects, key),
        |key: Seq<char>| objects[index_of_object(objects, key)].content,
    )
}

/// The message of a put that did not reach the store.
pub open spec fn out_of_reach() -> Seq<char> {
    "The object store is out of reach"@
}

proof fn lemma_object_in_bucket(objects: Seq<ObjectView>, i: int)
    requires
        unique_object_keys(objects),
        0 <= i < objects.len(),
    ensures
        has_object(objects, objects[i].key),
        index_of_object(objects, objects[i].key) == i,
        bucket_of(objects)[objects[i].key] == objects[i].content,
{
}

proof fn lemma_put_new(objects: Seq<ObjectView>, object: ObjectView)
    requires
        unique_object_keys(objects),
        !has_object(objects, object.key),
    ensures
        unique_object_keys(objects.push(object)),
        bucket_of(objects.push(object)) == bucket_of(objects).insert(object.key, object.content),
{
    let after = objects.push(object);
    let expected = bucket_of(objects).insert(object.key, object.content);
    assert forall|key: Seq<char>| #[trigger] bucket_of(after).dom().contains(key) <==> expected.dom().contains(
        key,
    ) by {
        if has_object(objects, key) {
            assert(after[index_of_object(objects, key)].key == key);
        }
        if key == object.key {
            assert(after[objects.len() as int].key == key);
        }
    }
    assert forall|key: Seq<char>| #[trigger] bucket_of(after).dom().contains(key) implies bucket_of(after)[key]
        == expected[key] by {
        let i = index_of_object(after, key);
        lemma_object_in_bucket(after, i);
        if i < objects.len() {
            lemma_object_in_bucket(objects, i);
        }
    }
    assert(bucket_of(after) =~= expected);
}

proof fn lemma_put_over(objects: Seq<ObjectView>, i: int, object: ObjectView)
    requires
        unique_object_keys(objects),
        0 <= i < objects.len(),
        objects[i].key == object.key,
    ensures
        unique_object_keys(objects.update(i, object)),
        bucket_of(objects.update(i, object)) == bucket_of(objects).insert(object.key, object.content),
{
    let after = objects.update(i, object);
    let expected = bucket_of(objects).insert(object.key, object.content);
    assert forall|key: Seq<char>| #[trigger] bucket_of(after).dom().contains(key) <==> expected.dom().contains(
        key,
    ) by {
        if has_object(objects, key) {
            assert(after[index_of_object(objects, key)].key == key);
        }
        if has_object(after, key) {
            assert(objects[index_of_object(after, key)].key == key);
        }
    }
    assert forall|key: Seq<char>| #[trigger] bucket_of(after).dom().contains(key) implies bucket_of(after)[key]
        == expected[key] by {
        let j = index_of_object(after, key);
        lemma_object_in_bucket(after, j);
        if j != i {
            lemma_object_in_bucket(objects, j);
            lemma_object_in_bucket(objects, i);
        }
    }
    assert(bucket_of(after) =~= expected);
}

/// A put is idempotent: the same put a second time changes nothing, and a
/// put under a key that is taken leaves the new content and nothing of the
/// old.
pub proof fn lemma_put_overwrites(bucket: Bucket, key: Seq<char>, first: Seq<u8>, second: Seq<u8>)
    ensures
        bucket.insert(key, first).insert(key, first) == bucket.insert(key, first),
        bucket.insert(key, first).insert(key, second) == bucket.insert(key, second),
{
    assert(bucket.insert(key, first).insert(key, first) =~= bucket.insert(key, first));
    assert(bucket.insert(key, first).insert(key, second) =~= bucket.insert(key, second));
}

/// The object store, held in memory.
#[derive(Clone, Debug)]
pub struct ObjectStore {
    objects: Vec<StoredObject>,
    available: bool,
}

impl ObjectStore {
    /// The objects, in the order in which their keys first appeared.
    pub closed spec fn objects(&self) -> Seq<ObjectView> {
        object_views(self.objects@)
    }

    /// Whether the store can be reached.
    pub closed spec fn is_available(&self) -> bool {
        self.available
    }

    /// The store's invariant: one object for a key.
    pub open spec fn wf(&self) -> bool {
        unique_object_keys(self.objects())
    }

    /// An empty store that can be reached.
    pub fn new() -> (store: ObjectStore)
        ensures
            store.wf(),
            store.is_available(),
            store@ == Bucket::empty(),
    {
        let store = ObjectStore { objects: Vec::new(), available: true };
        assert(store@ =~= Bucket::empty());
        store
    }

    /// Takes the store out of reach, or brings it back. What it holds stays.
    pub fn set_available(&mut self, available: bool)
        ensures
            final(self).is_available() == available,
            final(self).objects() == old(self).objects(),
    {
        self.available = available;
    }

    fn position(&self, key: &str) -> (found: Option<usize>)
        ensures
            match found {
                Some(i) => i < self.objects().len() && self.objects()[i as int].key == key@,
                None => !has_object(self.objects(), key@),
            },
    {
        let wanted: String = key.to_owned();
        let mut i: usize = 0;
        while i < self.objects.len()
            invariant
                i <= self.objects.len(),
                wanted@ == key@,
                forall|j: int| 0 <= j < i ==> (#[trigger] self.objects()[j]).key != key@,
            decreases self.objects.len() - i,
        {
            if self.objects[i].key == wanted {
                return Some(i);
            }
            i += 1;
        }
        None
    }

    /// Stores content under a key. Where the store is out of reach nothing
    /// changes and the store's message comes back; else the key holds the new
    /// content, whatever it held before, and every other key is untouched.
    pub fn put(&mut self, key: &str, content: Vec<u8>) -> (res: Result<(), String>)
        requires
            old(self).wf(),
        ensures
            final(self).wf(),
            final(self).is_available() == old(self).is_available(),
            if old(self).is_available() {
                res is Ok && final(self)@ == old(self)@.insert(key@, content@)
            } else {
                res matches Err(message) && message@ == out_of_reach() && final(self).objects() == old(
                    self,
                ).objects()
            },
    {
        if !self.available {
            return Err("The object store is out of reach".to_owned());
        }
        let object = StoredObject { key: key.to_owned(), content };
        match self.position(key) {
            Some(i) => {
                proof {
                    lemma_put_over(self.objects(), i as int, object@);
                }
                let ghost before = self.objects();
                self.objects.set(i, object);
                assert(self.objects() =~= before.update(i as int, object@));
            },
            None => {
                proof {
                    lemma_put_new(self.objects(), object@);
                }
                let ghost before = self.objects();
                self.objects.push(object);
                assert(self.objects() =~= before.push(object@));
            },
        }
        Ok(())
    }

    /// The content under a key, if the store holds the key.
    pub fn get(&self, key: &str) -> (content: Option<Vec<u8>>)
        requires
            self.wf(),
        ensures
            match content {
                Some(bytes) => self@.dom().contains(key@) && self@[key@] == bytes@,
                None => !self@.dom().contains(key@),
            },
    {
        match self.position(key) {
            Some(i) => {
                proof {
                    lemma_object_in_bucket(self.objects(), i as int);
                }
                Some(self.objects[i].content.clone())
            },
            None => None,
        }
    }

    /// The number of objects.
    pub fn len(&self) -> (n: usize)
        ensures
            n == self.objects().len(),
    {
        self.objects.len()
    }
}

impl View for ObjectStore {
    type V = Bucket;

    open spec fn view(&self) -> Bucket {
        bucket_of(self.objects())
    }
}

} // verus!
