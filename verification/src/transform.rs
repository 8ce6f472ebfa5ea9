//! The transform component and the per-entity world-matrix cache.

use vstd::prelude::*;
use crate::math::{
    fp_mul_spec, sat_add_spec, sat_sub_spec, fp_mul, sat_add, sat_sub,
    identity_spec, mat_mul_spec, scale_spec, translation_spec,
    Matrix4, Quaternion, Vector3, FP_ONE,
};
use crate::EntityId;

verus! {

/// A component holding translation, scale and rotation, convertible to a
/// 4x4 homogeneous fixed-point matrix.
#[derive(Clone, Copy, PartialEq, Eq, Structural, Debug)]
pub struct Transform {
    pub translation: Vector3,
    pub scale: Vector3,
    pub rotation: Quaternion,
}

/// The rotation matrix of the (normalized) quaternion `q`, in fixed
/// point: the standard unit-quaternion rotation matrix, every product
/// rescaled by `FP_ONE` and saturated.
#[verifier::opaque]
pub open spec fn rotation_matrix_spec(q: Quaternion) -> Matrix4 {
    let w = q.w as int;
    let x = q.x as int;
    let y = q.y as int;
    let z = q.z as int;
    let xx = fp_mul_spec(x, x);
    let yy = fp_mul_spec(y, y);
    let zz = fp_mul_spec(z, z);
    let xy = fp_mul_spec(x, y);
    let xz = fp_mul_spec(x, z);
    let yz = fp_mul_spec(y, z);
    let wx = fp_mul_spec(w, x);
    let wy = fp_mul_spec(w, y);
    let wz = fp_mul_spec(w, z);
    Matrix4 {
        m00: sat_sub_spec(FP_ONE as int, sat_add_spec(sat_add_spec(yy, zz), sat_add_spec(yy, zz))) as i64,
        m01: sat_add_spec(sat_sub_spec(xy, wz), sat_sub_spec(xy, wz)) as i64,
        m02: sat_add_spec(sat_add_spec(xz, wy), sat_add_spec(xz, wy)) as i64,
        m03: 0i64,
        m10: sat_add_spec(sat_add_spec(xy, wz), sat_add_spec(xy, wz)) as i64,
        m11: sat_sub_spec(FP_ONE as int, sat_add_spec(sat_add_spec(xx, zz), sat_add_spec(xx, zz))) as i64,
        m12: sat_add_spec(sat_sub_spec(yz, wx), sat_sub_spec(yz, wx)) as i64,
        m13: 0i64,
        m20: sat_add_spec(sat_sub_spec(xz, wy), sat_sub_spec(xz, wy)) as i64,
        m21: sat_add_spec(sat_add_spec(yz, wx), sat_add_spec(yz, wx)) as i64,
        m22: sat_sub_spec(FP_ONE as int, sat_add_spec(sat_add_spec(xx, yy), sat_add_spec(xx, yy))) as i64,
        m23: 0i64,
        m30: 0i64,
        m31: 0i64,
        m32: 0i64,
        m33: FP_ONE,
    }
}

/// The local matrix of a transform: scale, then translation, then
/// rotation, multiplied in that order.
#[verifier::opaque]
pub open spec fn local_matrix_spec(t: Transform) -> Matrix4 {
    mat_mul_spec(
        mat_mul_spec(scale_spec(t.scale), translation_spec(t.translation)),
        rotation_matrix_spec(t.rotation),
    )
}

impl Quaternion {
    /// The rotation matrix of this quaternion.
    pub fn rotation_matrix(&self) -> (r: Matrix4)
        ensures
            r == rotation_matrix_spec(*self),
    {
        proof {
            reveal(rotation_matrix_spec);
        }
        let xx = fp_mul(self.x, self.x);
        let yy = fp_mul(self.y, self.y);
        let zz = fp_mul(self.z, self.z);
        let xy = fp_mul(self.x, self.y);
        let xz = fp_mul(self.x, self.z);
        let yz = fp_mul(self.y, self.z);
        let wx = fp_mul(self.w, self.x);
        let wy = fp_mul(self.w, self.y);
        let wz = fp_mul(self.w, self.z);
        let yy_zz = sat_add(yy, zz);
        let xx_zz = sat_add(xx, zz);
        let xx_yy = sat_add(xx, yy);
        let xy_m_wz = sat_sub(xy, wz);
        let xy_p_wz = sat_add(xy, wz);
        let xz_p_wy = sat_add(xz, wy);
        let xz_m_wy = sat_sub(xz, wy);
        let yz_m_wx = sat_sub(yz, wx);
        let yz_p_wx = sat_add(yz, wx);
        Matrix4 {
            m00: sat_sub(FP_ONE, sat_add(yy_zz, yy_zz)),
            m01: sat_add(xy_m_wz, xy_m_wz),
            m02: sat_add(xz_p_wy, xz_p_wy),
            m03: 0,
            m10: sat_add(xy_p_wz, xy_p_wz),
            m11: sat_sub(FP_ONE, sat_add(xx_zz, xx_zz)),
            m12: sat_add(yz_m_wx, yz_m_wx),
            m13: 0,
            m20: sat_add(xz_m_wy, xz_m_wy),
            m21: sat_add(yz_p_wx, yz_p_wx),
            m22: sat_sub(FP_ONE, sat_add(xx_yy, xx_yy)),
            m23: 0,
            m30: 0,
            m31: 0,
            m32: 0,
            m33: FP_ONE,
        }
    }
}

impl Transform {
    /// The local matrix of this transform.
    pub fn as_matrix4(&self) -> (r: Matrix4)
        ensures
            r == local_matrix_spec(*self),
    {
        proof {
            reveal(local_matrix_spec);
        }
        let scale = Matrix4::new_scale(&self.scale);
        let translation = Matrix4::new_translation(&self.translation);
        let rotation = self.rotation.rotation_matrix();
        scale.multiply(&translation).multiply(&rotation)
    }

    /// The identity transform: zero translation, unit scale, identity
    /// rotation.
    pub fn identity() -> (r: Transform)
        ensures
            r == (Transform {
                translation: Vector3 { x: 0i64, y: 0i64, z: 0i64 },
                scale: Vector3 { x: FP_ONE, y: FP_ONE, z: FP_ONE },
                rotation: Quaternion { w: FP_ONE, x: 0i64, y: 0i64, z: 0i64 },
            }),
    {
        Transform {
            translation: Vector3::zero(),
            scale: Vector3::one(),
            rotation: Quaternion::identity(),
        }
    }
}

impl Default for Transform {
    /// The identity transform.
    fn default() -> (r: Self)
        ensures
            r == (Transform {
                translation: Vector3 { x: 0i64, y: 0i64, z: 0i64 },
                scale: Vector3 { x: FP_ONE, y: FP_ONE, z: FP_ONE },
                rotation: Quaternion { w: FP_ONE, x: 0i64, y: 0i64, z: 0i64 },
            }),
    {
        Transform::identity()
    }
}

/// A resource mapping each entity to its last-computed world matrix,
/// lazily defaulted to the identity for entities never set.
#[derive(Clone, PartialEq, Eq, Debug)]
pub struct TransformCache {
    pub entries: Vec<Option<Matrix4>>,
}

impl TransformCache {
    /// The world matrix recorded for `id`: the identity matrix unless a
    /// matrix was set for `id`.
    pub open spec fn matrix_of(&self, id: int) -> Matrix4 {
        if 0 <= id < self.entries@.len() && self.entries@[id] is Some {
            self.entries@[id]->0
        } else {
            identity_spec()
        }
    }

    /// An empty cache: every entity maps to the identity matrix.
    pub fn new() -> (r: TransformCache)
        ensures
            forall|id: int| r.matrix_of(id) == identity_spec(),
    {
        TransformCache { entries: Vec::new() }
    }

    /// Records `matrix` as the world matrix of `id`, leaving every other
    /// entity's matrix unchanged.
    pub fn set(&mut self, id: EntityId, matrix: Matrix4)
        ensures
            final(self).matrix_of(id as int) == matrix,
            forall|other: int| other != id as int ==> final(self).matrix_of(other) == old(self).matrix_of(other),
    {
        while self.entries.len() <= id
            invariant
                forall|j: int| #![auto] 0 <= j < self.entries@.len() && j < old(self).entries@.len() ==> self.entries@[j] == old(self).entries@[j],
                forall|j: int| #![auto] old(self).entries@.len() <= j < self.entries@.len() ==> self.entries@[j] is None,
                self.entries@.len() >= old(self).entries@.len(),
            decreases id + 1 - self.entries.len(),
        {
            self.entries.push(None);
        }
        self.entries.set(id, Some(matrix));
        assert(forall|other: int| other != id as int ==> final(self).matrix_of(other) == old(self).matrix_of(other)) by {
            assert(forall|j: int| #![auto] 0 <= j < self.entries@.len() && j != id as int ==> {
                if j < old(self).entries@.len() {
                    self.entries@[j] == old(self).entries@[j]
                } else {
                    self.entries@[j] is None
                }
            });
        }
    }

    /// The world matrix of `id`, the identity matrix if none was set.
    pub fn get(&self, id: EntityId) -> (r: Matrix4)
        ensures
            r == self.matrix_of(id as int),
    {
        if id < self.entries.len() {
            match self.entries[id] {
                Some(m) => m,
                None => Matrix4::identity(),
            }
        } else {
            Matrix4::identity()
        }
    }
}

impl Default for TransformCache {
    /// An empty cache.
    fn default() -> (r: Self)
        ensures
            forall|id: int| r.matrix_of(id) == identity_spec(),
    {
        TransformCache::new()
    }
}

} // verus!
