use vstd::prelude::*;

verus! {

/// The texts of the strings in `ts`, as a set.
pub open spec fn topic_set(ts: Seq<String>) -> Set<Seq<char>> {
    Set::new(|t: Seq<char>| exists|i: int| 0 <= i < ts.len() && #[trigger] ts[i]@ == t)
}

/// The topics registered so far. Topics are only ever added.
pub struct RegisteredTopics {
    topics: Vec<String>,
}

impl View for RegisteredTopics {
    type V = Set<Seq<char>>;

    closed spec fn view(&self) -> Set<Seq<char>> {
        topic_set(self.topics@)
    }
}

impl RegisteredTopics {
    /// No topic is held twice.
    pub closed spec fn wf(&self) -> bool {
        forall|i: int, j: int|
            0 <= i < j < self.topics@.len() ==> (#[trigger] self.topics@[i])@
                != (#[trigger] self.topics@[j])@
    }

    pub fn new() -> (r: RegisteredTopics)
        ensures
            r.wf(),
            r@ == Set::<Seq<char>>::empty(),
    {
        let r = RegisteredTopics { topics: Vec::new() };
        assert(r@ =~= Set::<Seq<char>>::empty());
        r
    }

    pub fn contains(&self, topic: &str) -> (r: bool)
        ensures
            r == self@.contains(topic@),
    {
        let mut i: usize = 0;
        while i < self.topics.len()
            invariant
                i <= self.topics@.len(),
                forall|k: int| 0 <= k < i ==> (#[trigger] self.topics@[k])@ != topic@,
            decreases self.topics@.len() - i,
        {
            let t = topic.to_owned();
            if self.topics[i] == t {
                assert(self.topics@[i as int]@ == topic@);
                return true;
            }
            i = i + 1;
        }
        false
    }

    /// Adds one topic; a topic already held leaves the set as it was.
    pub fn insert(&mut self, topic: &String)
        requires
            old(self).wf(),
        ensures
            final(self).wf(),
            final(self)@ == old(self)@.insert(topic@),
    {
        if self.contains(topic.as_str()) {
            assert(self@ =~= self@.insert(topic@));
            return ;
        }
        let ghost s0 = self.topics@;
        self.topics.push(topic.clone());
        let ghost s1 = self.topics@;
        assert(s1[s1.len() - 1]@ == topic@);
        assert(self@ =~= old(self)@.insert(topic@)) by {
            assert forall|t: Seq<char>| topic_set(s1).contains(t) implies topic_set(s0).insert(
                topic@,
            ).contains(t) by {
                let i = choose|i: int| 0 <= i < s1.len() && #[trigger] s1[i]@ == t;
                if i < s0.len() {
                    assert(s0[i]@ == t);
                }
            }
            assert forall|t: Seq<char>| topic_set(s0).contains(t) implies topic_set(s1).contains(
                t,
            ) by {
                let i = choose|i: int| 0 <= i < s0.len() && #[trigger] s0[i]@ == t;
                assert(s1[i]@ == t);
            }
        }
        assert forall|i: int, j: int| 0 <= i < j < s1.len() implies (#[trigger] s1[i])@ != (
        #[trigger] s1[j])@ by {
            if j == s1.len() - 1 {
                assert(s0[i]@ == s1[i]@);
                assert(topic_set(s0).contains(s0[i]@));
            } else {
                assert(s0[i] == s1[i] && s0[j] == s1[j]);
            }
        }
    }

    /// Adds every topic of `topics`: the set becomes the union of what it held
    /// and what `topics` names.
    pub fn register(&mut self, topics: &Vec<String>)
        requires
            old(self).wf(),
        ensures
            final(self).wf(),
            final(self)@ == old(self)@.union(topic_set(topics@)),
    {
        let mut i: usize = 0;
        while i < topics.len()
            invariant
                i <= topics@.len(),
                self.wf(),
                self@ == old(self)@.union(topic_set(topics@.subrange(0, i as int))),
            decreases topics@.len() - i,
        {
            let ghost before = self@;
            self.insert(&topics[i]);
            proof {
                let a = topics@.subrange(0, i as int);
                let b = topics@.subrange(0, i + 1);
                assert(topic_set(b) =~= topic_set(a).insert(topics@[i as int]@)) by {
                    assert forall|t: Seq<char>| topic_set(b).contains(t) implies topic_set(
                        a,
                    ).insert(topics@[i as int]@).contains(t) by {
                        let k = choose|k: int| 0 <= k < b.len() && #[trigger] b[k]@ == t;
                        if k < i {
                            assert(a[k]@ == t);
                        }
                    }
                    assert forall|t: Seq<char>| topic_set(a).contains(t) implies topic_set(
                        b,
                    ).contains(t) by {
                        let k = choose|k: int| 0 <= k < a.len() && #[trigger] a[k]@ == t;
                        assert(b[k]@ == t);
                    }
                    assert(b[i as int]@ == topics@[i as int]@);
                }
                assert(self@ =~= old(self)@.union(topic_set(b)));
            }
            i = i + 1;
        }
        assert(topics@.subrange(0, i as int) =~= topics@);
    }

    /// The registered topics, in the order they were first registered.
    pub fn topics(&self) -> (r: Vec<String>)
        ensures
            topic_set(r@) == self@,
    {
        let r = self.topics.clone();
        assert(r@ =~= self.topics@) by {
            assert forall|i: int| 0 <= i < r@.len() implies r@[i] == self.topics@[i] by {
                assert(cloned(self.topics@[i], r@[i]));
            }
        }
        r
    }
}

} // verus!
