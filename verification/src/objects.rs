//! Geometry: spheres, scenes of spheres, and where a ray meets them.
use vstd::prelude::*;
use crate::materials::{Empty, Material};
use crate::scalar::Scalar;
use crate::vec3::Vec3;

verus! {

/// A meeting of a ray and a surface: the ray parameter, the point, the unit
/// normal there, which faces outward, and the surface's material.
#[derive(Clone, Copy, Debug, PartialEq, Eq, Structural)]
pub struct HitRecord {
    pub t: Scalar,
    pub p: Vec3,
    pub normal: Vec3,
    pub mat: Material,
}

impl HitRecord {
    /// The record that no geometry has filled in.
    pub open spec fn blank() -> HitRecord {
        HitRecord {
            t: Scalar::zero(),
            p: Vec3::origin(),
            normal: Vec3::origin(),
            mat: Material::Empty(Empty {}),
        }
    }

    /// The record with the given parts.
    pub fn new(t: Scalar, p: Vec3, normal: Vec3, mat: Material) -> (rec: HitRecord)
        ensures
            rec == (HitRecord { t, p, normal, mat }),
    {
        HitRecord { t, p, normal, mat }
    }

    /// The record that no geometry has filled in: zeros and the empty material.
    pub fn empty() -> (rec: HitRecord)
        ensures
            rec == HitRecord::blank(),
    {
        HitRecord::new(Scalar::zero(), Vec3::zero(), Vec3::zero(), Material::Empty(Empty {}))
    }
}

/// One of the two points where a ray's line meets a sphere: the root of the
/// quadratic, the point `origin + t * direction`, and the normal
/// `(p - center) / radius` there.
#[derive(Clone, Copy, Debug, PartialEq, Eq, Structural)]
pub struct Crossing {
    pub t: Scalar,
    pub p: Vec3,
    pub normal: Vec3,
}

/// What the arithmetic found for one ray and one sphere: the discriminant
/// `b^2 - a*c` of the quadratic, and the crossings at the roots
/// `(-b - sqrt(disc)) / a` and `(-b + sqrt(disc)) / a`.
#[derive(Clone, Copy, Debug, PartialEq, Eq, Structural)]
pub struct Crossings {
    pub discriminant: Scalar,
    pub near: Crossing,
    pub far: Crossing,
}

impl Crossings {
    /// Whether the far root is not smaller than the near one, as it is for every
    /// ray with a direction.
    pub open spec fn ordered(self) -> bool {
        !self.far.t.below(self.near.t)
    }

    /// The crossing that counts for the open interval from `t_min` to `t_max`:
    /// the near one if its root lies inside, else the far one if its root does,
    /// and none where the discriminant is not positive.
    pub open spec fn first_within(self, t_min: Scalar, t_max: Scalar) -> Option<Crossing> {
        if !self.discriminant.positive() {
            None
        } else if self.near.t.strictly_between(t_min, t_max) {
            Some(self.near)
        } else if self.far.t.strictly_between(t_min, t_max) {
            Some(self.far)
        } else {
            None
        }
    }
}

/// A sphere with its surface.
#[derive(Clone, Copy, Debug, PartialEq, Eq, Structural)]
pub struct Sphere {
    pub center: Vec3,
    pub radius: Scalar,
    pub mat: Material,
}

impl Sphere {
    /// Whether the radius is a positive number.
    pub open spec fn wf(self) -> bool {
        self.radius.positive()
    }

    /// Where the ray behind `probe` meets this sphere between `t_min` and `t_max`.
    pub open spec fn hit_spec(self, probe: Crossings, t_min: Scalar, t_max: Scalar) -> Option<
        HitRecord,
    > {
        match probe.first_within(t_min, t_max) {
            Some(c) => Some(HitRecord { t: c.t, p: c.p, normal: c.normal, mat: self.mat }),
            None => None,
        }
    }

    /// The sphere with the given parts.
    pub fn new(center: Vec3, radius: Scalar, mat: Material) -> (s: Sphere)
        ensures
            s == (Sphere { center, radius, mat }),
    {
        Sphere { center, radius, mat }
    }

    /// Whether the radius is a positive number.
    pub fn is_valid(&self) -> (r: bool)
        ensures
            r == self.wf(),
    {
        self.radius.is_positive()
    }

    /// Looks for the nearest meeting of the ray and the sphere strictly between
    /// `t_min` and `t_max`. Where there is one, fills `rec` with it and returns
    /// true; where there is none, leaves `rec` alone.
    pub fn hit(&self, probe: &Crossings, t_min: Scalar, t_max: Scalar, rec: &mut HitRecord) -> (found:
        bool)
        ensures
            found == self.hit_spec(*probe, t_min, t_max).is_some(),
            found ==> *final(rec) == self.hit_spec(*probe, t_min, t_max).unwrap(),
            !found ==> *final(rec) == *old(rec),
    {
        if probe.discriminant.is_positive() {
            let mut root = probe.near;
            if root.t.lt(&t_max) && root.t.gt(&t_min) {
                rec.t = root.t;
                rec.p = root.p;
                rec.normal = root.normal;
                rec.mat = self.mat;
                return true;
            }
            root = probe.far;
            if root.t.lt(&t_max) && root.t.gt(&t_min) {
                rec.t = root.t;
                rec.p = root.p;
                rec.normal = root.normal;
                rec.mat = self.mat;
                return true;
            }
        }
        false
    }
}

/// Anything that a ray can meet: one sphere or a scene.
pub enum Hittable {
    Sphere(Sphere),
    List(HittableList),
}

/// An ordered collection of geometry: spheres, and scenes of their own.
pub struct HittableList {
    pub list: Vec<Hittable>,
    pub size: usize,
}

/// What the arithmetic found for one ray and one piece of geometry, in the shape
/// of that geometry: the crossings for a sphere, one probe per member for a
/// scene.
pub enum Probe {
    Sphere(Crossings),
    List(Vec<Probe>),
}

impl Probe {
    /// Whether the probe has the shape of `geometry`.
    pub open spec fn fits(self, geometry: Hittable) -> bool
        decreases geometry,
    {
        match geometry {
            Hittable::Sphere(_) => self is Sphere,
            Hittable::List(scene) => self is List && fits_each(scene.list@, self->List_0@),
        }
    }

    /// Whether every sphere's roots are in order.
    pub open spec fn ordered(self) -> bool
        decreases self,
    {
        match self {
            Probe::Sphere(crossings) => crossings.ordered(),
            Probe::List(probes) => forall|i: int|
                0 <= i < probes@.len() ==> (#[trigger] probes@[i]).ordered(),
        }
    }
}

/// Whether there is one probe for each member, of the member's shape.
pub open spec fn fits_each(members: Seq<Hittable>, probes: Seq<Probe>) -> bool
    decreases members,
{
    &&& probes.len() == members.len()
    &&& forall|i: int| 0 <= i < members.len() ==> (#[trigger] probes[i]).fits(members[i])
}

/// Whether every probe has the roots of every sphere in order.
pub open spec fn all_ordered(probes: Seq<Probe>) -> bool {
    forall|i: int| 0 <= i < probes.len() ==> (#[trigger] probes[i]).ordered()
}

/// What a scan over the first `n` of `members` reports between `t_min` and
/// `t_max`, where `probes[i]` belongs to `members[i]`. Each member is asked only
/// for a hit strictly nearer than the one found before it.
pub open spec fn scan(
    members: Seq<Hittable>,
    probes: Seq<Probe>,
    t_min: Scalar,
    t_max: Scalar,
    n: nat,
) -> Option<HitRecord>
    decreases members, n,
{
    if n == 0 || n > members.len() {
        None
    } else {
        let before = scan(members, probes, t_min, t_max, (n - 1) as nat);
        let bound = match before {
            Some(rec) => rec.t,
            None => t_max,
        };
        match members[n - 1].hit_spec(probes[n - 1], t_min, bound) {
            Some(rec) => Some(rec),
            None => before,
        }
    }
}

/// Whether `rec` is the hit of member `i` and the nearest among the first `n`
/// members: none of them has a hit below it, and every member before `i` has
/// its hit, if any, strictly above.
pub open spec fn is_nearest(
    members: Seq<Hittable>,
    probes: Seq<Probe>,
    t_min: Scalar,
    t_max: Scalar,
    n: nat,
    i: int,
    rec: HitRecord,
) -> bool {
    &&& 0 <= i < n
    &&& members[i].hit_spec(probes[i], t_min, t_max) == Some(rec)
    &&& forall|j: int|
        0 <= j < n ==> match #[trigger] members[j].hit_spec(probes[j], t_min, t_max) {
            Some(other) => rec.t.at_most(other.t) && (j < i ==> rec.t.below(other.t)),
            None => true,
        }
}

/// Only the hits below `bound` of what a wider interval gave.
pub open spec fn nearer_than(hit: Option<HitRecord>, bound: Scalar) -> Option<HitRecord> {
    match hit {
        Some(rec) => if rec.t.below(bound) {
            Some(rec)
        } else {
            None
        },
        None => None,
    }
}

impl HittableList {
    /// Whether `size` is the number of members, here and in every scene within.
    pub open spec fn wf(self) -> bool {
        Hittable::List(self).wf()
    }

    /// Where the ray behind `probes` meets the scene between `t_min` and `t_max`.
    pub open spec fn hit_spec(self, probes: Seq<Probe>, t_min: Scalar, t_max: Scalar) -> Option<
        HitRecord,
    > {
        scan(self.list@, probes, t_min, t_max, self.list@.len())
    }

    /// The scene of the given members, in their order. It is as valid as its
    /// members are.
    pub fn new(list: Vec<Hittable>) -> (scene: HittableList)
        ensures
            scene.list == list,
            scene.size == list@.len(),
            scene.wf() <==> forall|i: int| 0 <= i < list@.len() ==> (#[trigger] list@[i]).wf(),
    {
        let size = list.len();
        HittableList { list, size }
    }

    /// Looks for the nearest meeting of the ray and any member strictly between
    /// `t_min` and `t_max`, where `probes[i]` belongs to member `i`. Returns
    /// whether there is one; `rec` receives it, or the record that nothing has
    /// filled in.
    ///
    /// With every sphere's roots in order, the hit reported is the nearest of all
    /// members' hits, and of equally near ones the first.
    pub fn hit(&self, probes: &Vec<Probe>, t_min: Scalar, t_max: Scalar, rec: &mut HitRecord) -> (found:
        bool)
        requires
            self.wf(),
            fits_each(self.list@, probes@),
        ensures
            found == self.hit_spec(probes@, t_min, t_max).is_some(),
            *final(rec) == match self.hit_spec(probes@, t_min, t_max) {
                Some(hit) => hit,
                None => HitRecord::blank(),
            },
            all_ordered(probes@) ==> match self.hit_spec(probes@, t_min, t_max) {
                Some(hit) => exists|i: int|
                    is_nearest(self.list@, probes@, t_min, t_max, self.list@.len(), i, hit),
                None => forall|j: int|
                    0 <= j < self.list@.len() ==> (#[trigger] self.list@[j]).hit_spec(
                        probes@[j],
                        t_min,
                        t_max,
                    ) is None,
            },
        decreases *self,
    {
        let mut temp_rec = HitRecord::empty();
        let mut hit_anything = false;
        let mut current_closest = t_max;
        let mut i: usize = 0;
        while i < self.size
            invariant
                0 <= i <= self.size,
                self.wf(),
                fits_each(self.list@, probes@),
                hit_anything == scan(self.list@, probes@, t_min, t_max, i as nat).is_some(),
                match scan(self.list@, probes@, t_min, t_max, i as nat) {
                    Some(hit) => temp_rec == hit && current_closest == hit.t,
                    None => temp_rec == HitRecord::blank() && current_closest == t_max,
                },
            decreases self.size - i,
        {
            let mut candidate = temp_rec;
            if self.list[i].hit(&probes[i], t_min, current_closest, &mut candidate) {
                temp_rec = candidate;
                hit_anything = true;
                current_closest = temp_rec.t;
            }
            i = i + 1;
        }
        proof {
            if all_ordered(probes@) {
                lemma_scan_finds_nearest(self.list@, probes@, t_min, t_max, self.list@.len());
            }
        }
        *rec = temp_rec;
        hit_anything
    }
}

impl Hittable {
    /// Whether every scene, at every level, has its size right.
    pub open spec fn wf(self) -> bool
        decreases self,
    {
        match self {
            Hittable::Sphere(_) => true,
            Hittable::List(scene) => scene.size == scene.list@.len() && forall|i: int|
                0 <= i < scene.list@.len() ==> (#[trigger] scene.list@[i]).wf(),
        }
    }

    /// Whether `rec` is the hit of one of the spheres, taken by itself.
    pub open spec fn some_sphere_hit(
        self,
        probe: Probe,
        t_min: Scalar,
        t_max: Scalar,
        rec: HitRecord,
    ) -> bool
        decreases self,
    {
        match self {
            Hittable::Sphere(sphere) => probe is Sphere && sphere.hit_spec(
                probe->Sphere_0,
                t_min,
                t_max,
            ) == Some(rec),
            Hittable::List(scene) => probe is List && exists|i: int|
                0 <= i < scene.list@.len() && (#[trigger] scene.list@[i]).some_sphere_hit(
                    probe->List_0@[i],
                    t_min,
                    t_max,
                    rec,
                ),
        }
    }

    /// Where the ray behind `probe` meets the geometry between `t_min` and
    /// `t_max`: for a sphere the crossing that counts, for a scene what a scan
    /// over all its members reports.
    pub open spec fn hit_spec(self, probe: Probe, t_min: Scalar, t_max: Scalar) -> Option<HitRecord>
        decreases self, 0nat,
    {
        match self {
            Hittable::Sphere(sphere) => match probe {
                Probe::Sphere(crossings) => sphere.hit_spec(crossings, t_min, t_max),
                Probe::List(_) => None,
            },
            Hittable::List(scene) => match probe {
                Probe::Sphere(_) => None,
                Probe::List(probes) => scan(
                    scene.list@,
                    probes@,
                    t_min,
                    t_max,
                    scene.list@.len(),
                ),
            },
        }
    }
}

impl Hittable {
    /// Whether every scene, at every level, has its size right.
    pub fn is_valid(&self) -> (r: bool)
        ensures
            r == self.wf(),
        decreases *self,
    {
        match self {
            Hittable::Sphere(_) => true,
            Hittable::List(scene) => {
                if scene.size != scene.list.len() {
                    return false;
                }
                let mut i: usize = 0;
                while i < scene.list.len()
                    invariant
                        0 <= i <= scene.list@.len(),
                        *self == Hittable::List(*scene),
                        scene.size == scene.list@.len(),
                        forall|k: int| 0 <= k < i ==> (#[trigger] scene.list@[k]).wf(),
                    decreases scene.list@.len() - i,
                {
                    proof {
                        lemma_member_is_smaller(*self, i as int);
                    }
                    if !scene.list[i].is_valid() {
                        assert(!scene.list@[i as int].wf());
                        return false;
                    }
                    i = i + 1;
                }
                true
            },
        }
    }

    /// Whether `probe` has the shape of this geometry.
    pub fn accepts(&self, probe: &Probe) -> (r: bool)
        ensures
            r == probe.fits(*self),
        decreases *self,
    {
        match self {
            Hittable::Sphere(_) => match probe {
                Probe::Sphere(_) => true,
                Probe::List(_) => false,
            },
            Hittable::List(scene) => match probe {
                Probe::Sphere(_) => false,
                Probe::List(probes) => {
                    if probes.len() != scene.list.len() {
                        return false;
                    }
                    let mut i: usize = 0;
                    while i < scene.list.len()
                        invariant
                            0 <= i <= scene.list@.len(),
                            *self == Hittable::List(*scene),
                            *probe == Probe::List(*probes),
                            probes@.len() == scene.list@.len(),
                            forall|k: int| 0 <= k < i ==> (#[trigger] probes@[k]).fits(scene.list@[k]),
                        decreases scene.list@.len() - i,
                    {
                        proof {
                            lemma_member_is_smaller(*self, i as int);
                        }
                        if !scene.list[i].accepts(&probes[i]) {
                            assert(!probes@[i as int].fits(scene.list@[i as int]));
                            assert(!fits_each(scene.list@, probes@));
                            return false;
                        }
                        i = i + 1;
                    }
                    true
                },
            },
        }
    }

    /// Looks for the nearest meeting of the ray and the geometry strictly
    /// between `t_min` and `t_max`. Returns whether there is one. A sphere
    /// leaves `rec` alone where there is none; a scene resets it.
    ///
    /// With every sphere's roots in order, the hit reported is the nearest hit
    /// of all the spheres, however deep in the scenes they lie.
    pub fn hit(&self, probe: &Probe, t_min: Scalar, t_max: Scalar, rec: &mut HitRecord) -> (found:
        bool)
        requires
            self.wf(),
            probe.fits(*self),
        ensures
            found == self.hit_spec(*probe, t_min, t_max).is_some(),
            found ==> *final(rec) == self.hit_spec(*probe, t_min, t_max).unwrap(),
            !found ==> *final(rec) == match self {
                Hittable::Sphere(_) => *old(rec),
                Hittable::List(_) => HitRecord::blank(),
            },
            probe.ordered() ==> match self.hit_spec(*probe, t_min, t_max) {
                Some(hit) => self.some_sphere_hit(*probe, t_min, t_max, hit) && forall|
                    other: HitRecord,
                | #[trigger]
                    self.some_sphere_hit(*probe, t_min, t_max, other) ==> hit.t.at_most(other.t),
                None => forall|other: HitRecord|
                    !#[trigger] self.some_sphere_hit(*probe, t_min, t_max, other),
            },
        decreases *self,
    {
        proof {
            if probe.ordered() {
                lemma_hit_is_nearest_of_all(*self, *probe, t_min, t_max);
            }
        }
        match self {
            Hittable::Sphere(sphere) => match probe {
                Probe::Sphere(crossings) => sphere.hit(crossings, t_min, t_max, rec),
                Probe::List(_) => false,
            },
            Hittable::List(scene) => match probe {
                Probe::Sphere(_) => {
                    *rec = HitRecord::empty();
                    false
                },
                Probe::List(probes) => scene.hit(probes, t_min, t_max, rec),
            },
        }
    }
}

/// A member of a scene is smaller than the scene, so that what descends from a
/// scene into its members comes to an end.
proof fn lemma_member_is_smaller(geometry: Hittable, i: int)
    requires
        geometry is List,
        0 <= i < geometry->List_0.list@.len(),
    ensures
        decreases_to!(geometry => geometry->List_0.list@[i]),
{
    let scene = geometry->List_0;
    assert(decreases_to!(geometry => scene));
    assert(decreases_to!(scene => scene.list));
    assert(decreases_to!(scene.list => scene.list@));
    assert(decreases_to!(scene.list@ => scene.list@[i]));
}

/// A sphere behind the ray is missed: where neither root is positive, no
/// interval that starts at zero or later holds a hit.
pub proof fn lemma_sphere_behind_is_missed(
    sphere: Sphere,
    probe: Crossings,
    t_min: Scalar,
    t_max: Scalar,
)
    requires
        Scalar::zero().at_most(t_min),
        !probe.near.t.positive(),
        !probe.far.t.positive(),
    ensures
        sphere.hit_spec(probe, t_min, t_max) is None,
{
}

/// A hit lies strictly inside the interval that was asked for.
pub proof fn lemma_hit_lies_within(geometry: Hittable, probe: Probe, t_min: Scalar, t_max: Scalar)
    ensures
        geometry.hit_spec(probe, t_min, t_max) matches Some(rec) ==> rec.t.strictly_between(
            t_min,
            t_max,
        ),
    decreases geometry, 0nat,
{
    match geometry {
        Hittable::Sphere(_) => {},
        Hittable::List(scene) => match probe {
            Probe::Sphere(_) => {},
            Probe::List(probes) => {
                lemma_scan_lies_within(scene.list@, probes@, t_min, t_max, scene.list@.len());
            },
        },
    }
}

/// What a scan reports lies strictly inside the interval that was asked for.
pub proof fn lemma_scan_lies_within(
    members: Seq<Hittable>,
    probes: Seq<Probe>,
    t_min: Scalar,
    t_max: Scalar,
    n: nat,
)
    ensures
        scan(members, probes, t_min, t_max, n) matches Some(rec) ==> rec.t.strictly_between(
            t_min,
            t_max,
        ),
    decreases members, n,
{
    if 0 < n <= members.len() {
        let before = scan(members, probes, t_min, t_max, (n - 1) as nat);
        lemma_scan_lies_within(members, probes, t_min, t_max, (n - 1) as nat);
        let bound = match before {
            Some(rec) => rec.t,
            None => t_max,
        };
        lemma_hit_lies_within(members[n - 1], probes[n - 1], t_min, bound);
    }
}

/// Asking for a hit below a tighter bound gives the hit that the wider interval
/// gives, if that lies below the bound, and nothing otherwise.
pub proof fn lemma_tighter_bound(
    geometry: Hittable,
    probe: Probe,
    t_min: Scalar,
    t_max: Scalar,
    bound: Scalar,
)
    requires
        probe.fits(geometry),
        probe.ordered(),
        bound.below(t_max),
    ensures
        geometry.hit_spec(probe, t_min, bound) == nearer_than(
            geometry.hit_spec(probe, t_min, t_max),
            bound,
        ),
    decreases geometry, 0nat,
{
    match geometry {
        Hittable::Sphere(_) => {},
        Hittable::List(scene) => match probe {
            Probe::Sphere(_) => {},
            Probe::List(probes) => {
                lemma_scan_tighter_bound(
                    scene.list@,
                    probes@,
                    t_min,
                    t_max,
                    bound,
                    scene.list@.len(),
                );
            },
        },
    }
}

/// A scan below a tighter bound reports what the scan of the wider interval
/// reports, if that lies below the bound, and nothing otherwise.
pub proof fn lemma_scan_tighter_bound(
    members: Seq<Hittable>,
    probes: Seq<Probe>,
    t_min: Scalar,
    t_max: Scalar,
    bound: Scalar,
    n: nat,
)
    requires
        fits_each(members, probes),
        all_ordered(probes),
        bound.below(t_max),
    ensures
        scan(members, probes, t_min, bound, n) == nearer_than(
            scan(members, probes, t_min, t_max, n),
            bound,
        ),
    decreases members, n,
{
    if 0 < n <= members.len() {
        let m: nat = (n - 1) as nat;
        let member = members[m as int];
        let probe = probes[m as int];
        assert(probe.fits(member) && probe.ordered());
        lemma_scan_tighter_bound(members, probes, t_min, t_max, bound, m);
        lemma_scan_lies_within(members, probes, t_min, t_max, m);
        lemma_tighter_bound(member, probe, t_min, t_max, bound);
        lemma_hit_lies_within(member, probe, t_min, t_max);
        match scan(members, probes, t_min, t_max, m) {
            Some(best) => {
                lemma_tighter_bound(member, probe, t_min, t_max, best.t);
            },
            None => {},
        }
    }
}

/// A scan reports the nearest hit. With every sphere's roots in order, the
/// record that it returns is the hit of a member that no other member's hit lies
/// below, the first such member; and it returns none only where no member is
/// hit.
pub proof fn lemma_scan_finds_nearest(
    members: Seq<Hittable>,
    probes: Seq<Probe>,
    t_min: Scalar,
    t_max: Scalar,
    n: nat,
)
    requires
        fits_each(members, probes),
        all_ordered(probes),
        n <= members.len(),
    ensures
        match scan(members, probes, t_min, t_max, n) {
            Some(rec) => exists|i: int| is_nearest(members, probes, t_min, t_max, n, i, rec),
            None => forall|j: int|
                0 <= j < n ==> (#[trigger] members[j]).hit_spec(probes[j], t_min, t_max) is None,
        },
    decreases n,
{
    if n > 0 {
        let m: nat = (n - 1) as nat;
        let member = members[m as int];
        let probe = probes[m as int];
        assert(probe.fits(member) && probe.ordered());
        lemma_scan_finds_nearest(members, probes, t_min, t_max, m);
        lemma_hit_lies_within(member, probe, t_min, t_max);
        let own = member.hit_spec(probe, t_min, t_max);
        match scan(members, probes, t_min, t_max, m) {
            Some(best) => {
                let k: int = choose|k: int| is_nearest(members, probes, t_min, t_max, m, k, best);
                lemma_hit_lies_within(members[k], probes[k], t_min, t_max);
                lemma_tighter_bound(member, probe, t_min, t_max, best.t);
                match member.hit_spec(probe, t_min, best.t) {
                    Some(rec) => {
                        assert(own == Some(rec));
                        assert(is_nearest(members, probes, t_min, t_max, n, m as int, rec));
                    },
                    None => {
                        assert(is_nearest(members, probes, t_min, t_max, n, k, best));
                    },
                }
            },
            None => {
                match own {
                    Some(rec) => {
                        assert(is_nearest(members, probes, t_min, t_max, n, m as int, rec));
                    },
                    None => {},
                }
            },
        }
    }
}

/// The hit of any geometry is the nearest hit of all its spheres. With every
/// sphere's roots in order, what is reported is the hit of one of the spheres,
/// however deep in the scenes, and no sphere has a hit below it; and nothing is
/// reported only where no sphere is hit.
pub proof fn lemma_hit_is_nearest_of_all(
    geometry: Hittable,
    probe: Probe,
    t_min: Scalar,
    t_max: Scalar,
)
    requires
        probe.fits(geometry),
        probe.ordered(),
    ensures
        match geometry.hit_spec(probe, t_min, t_max) {
            Some(rec) => geometry.some_sphere_hit(probe, t_min, t_max, rec) && forall|
                other: HitRecord,
            | #[trigger]
                geometry.some_sphere_hit(probe, t_min, t_max, other) ==> rec.t.at_most(other.t),
            None => forall|other: HitRecord|
                !#[trigger] geometry.some_sphere_hit(probe, t_min, t_max, other),
        },
    decreases geometry,
{
    lemma_hit_lies_within(geometry, probe, t_min, t_max);
    match geometry {
        Hittable::Sphere(_) => {},
        Hittable::List(scene) => {
            let members = scene.list@;
            let probes = probe->List_0@;
            assert forall|i: int| 0 <= i < members.len() implies match (#[trigger] members[i]).hit_spec(
                probes[i],
                t_min,
                t_max,
            ) {
                Some(rec) => members[i].some_sphere_hit(probes[i], t_min, t_max, rec) && forall|
                    other: HitRecord,
                | #[trigger]
                    members[i].some_sphere_hit(probes[i], t_min, t_max, other) ==> rec.t.at_most(
                        other.t,
                    ),
                None => forall|other: HitRecord|
                    !#[trigger] members[i].some_sphere_hit(probes[i], t_min, t_max, other),
            } by {
                assert(probes[i].fits(members[i]) && probes[i].ordered());
                lemma_member_is_smaller(geometry, i);
                lemma_hit_is_nearest_of_all(members[i], probes[i], t_min, t_max);
            }
            lemma_scan_finds_nearest(members, probes, t_min, t_max, members.len());
            match scan(members, probes, t_min, t_max, members.len()) {
                Some(rec) => {
                    let k: int = choose|k: int|
                        is_nearest(members, probes, t_min, t_max, members.len(), k, rec);
                    assert(members[k].some_sphere_hit(probes[k], t_min, t_max, rec));
                    assert forall|other: HitRecord| #[trigger]
                        geometry.some_sphere_hit(probe, t_min, t_max, other) implies rec.t.at_most(
                        other.t,
                    ) by {
                        let j: int = choose|j: int|
                            0 <= j < members.len() && (#[trigger] members[j]).some_sphere_hit(
                                probes[j],
                                t_min,
                                t_max,
                                other,
                            );
                        assert(members[j].hit_spec(probes[j], t_min, t_max) is Some);
                    }
                },
                None => {
                    assert forall|other: HitRecord|
                        !#[trigger] geometry.some_sphere_hit(probe, t_min, t_max, other) by {
                        if geometry.some_sphere_hit(probe, t_min, t_max, other) {
                            let j: int = choose|j: int|
                                0 <= j < members.len() && (#[trigger] members[j]).some_sphere_hit(
                                    probes[j],
                                    t_min,
                                    t_max,
                                    other,
                                );
                            assert(members[j].hit_spec(probes[j], t_min, t_max) is None);
                        }
                    }
                },
            }
        },
    }
}

/// Of two spheres along one ray, the scene reports the nearer, whichever comes
/// first in the list.
pub proof fn lemma_nearer_sphere_wins(
    s1: Sphere,
    c1: Crossings,
    s2: Sphere,
    c2: Crossings,
    t_min: Scalar,
    t_max: Scalar,
)
    requires
        c1.ordered(),
        c2.ordered(),
        s1.hit_spec(c1, t_min, t_max) is Some,
        s2.hit_spec(c2, t_min, t_max) is Some,
        s1.hit_spec(c1, t_min, t_max).unwrap().t.below(s2.hit_spec(c2, t_min, t_max).unwrap().t),
    ensures
        scan(
            seq![Hittable::Sphere(s1), Hittable::Sphere(s2)],
            seq![Probe::Sphere(c1), Probe::Sphere(c2)],
            t_min,
            t_max,
            2,
        ) == s1.hit_spec(c1, t_min, t_max),
        scan(
            seq![Hittable::Sphere(s2), Hittable::Sphere(s1)],
            seq![Probe::Sphere(c2), Probe::Sphere(c1)],
            t_min,
            t_max,
            2,
        ) == s1.hit_spec(c1, t_min, t_max),
{
    let h1 = s1.hit_spec(c1, t_min, t_max).unwrap();
    let h2 = s2.hit_spec(c2, t_min, t_max).unwrap();
    let forth = seq![Hittable::Sphere(s1), Hittable::Sphere(s2)];
    let forth_probes = seq![Probe::Sphere(c1), Probe::Sphere(c2)];
    let back = seq![Hittable::Sphere(s2), Hittable::Sphere(s1)];
    let back_probes = seq![Probe::Sphere(c2), Probe::Sphere(c1)];
    assert(forth[0].hit_spec(forth_probes[0], t_min, t_max) == Some(h1));
    assert(forth[1].hit_spec(forth_probes[1], t_min, t_max) == Some(h2));
    assert(back[0].hit_spec(back_probes[0], t_min, t_max) == Some(h2));
    assert(back[1].hit_spec(back_probes[1], t_min, t_max) == Some(h1));
    lemma_scan_finds_nearest(forth, forth_probes, t_min, t_max, 2);
    lemma_scan_finds_nearest(back, back_probes, t_min, t_max, 2);
    let forward = scan(forth, forth_probes, t_min, t_max, 2);
    let backward = scan(back, back_probes, t_min, t_max, 2);
    assert(forward is Some);
    assert(backward is Some);
    let i: int = choose|i: int| is_nearest(forth, forth_probes, t_min, t_max, 2, i, forward.unwrap());
    let j: int = choose|j: int| is_nearest(back, back_probes, t_min, t_max, 2, j, backward.unwrap());
    assert(i == 0);
    assert(j == 1);
}

} // verus!
