//! Scene definition: a container for camera, geometry, materials and bounds.

use crate::camera::Camera;
use crate::geometry::{AxisBundle, Mesh, PointCloud, Polyline};
use crate::lighting::Light;
use crate::materials::Material;
use crate::scalar::Scalar;
use vstd::prelude::*;

verus! {

/// Axis-aligned bounding box.
#[derive(Debug, Clone, Copy)]
pub struct Bounds {
    pub min: [Scalar; 3],
    pub max: [Scalar; 3],
}

/// A scene element that can be rendered.
#[derive(Debug, Clone)]
pub enum SceneElement {
    PointCloud(PointCloud),
    Polyline(Polyline),
    Mesh(Mesh),
    Axes(AxisBundle),
}

/// A complete scene with camera, geometry, and explicit bounds.
#[derive(Debug, Clone)]
pub struct Scene {
    /// Camera for viewing the scene.
    pub camera: Camera,
    /// All geometry elements in the scene, in drawing order.
    pub elements: Vec<SceneElement>,
    /// Materials available in the scene.
    pub materials: Vec<Material>,
    /// Optional directional light. Without one, meshes render with flat colours.
    pub light: Option<Light>,
    /// Explicit scene bounds.
    pub bounds: Bounds,
}

/// Index of the first material with the given identifier, if any.
pub open spec fn material_index(materials: Seq<Material>, id: Seq<char>, n: nat) -> Option<int>
    decreases n,
{
    if n == 0 {
        None
    } else {
        match material_index(materials, id, (n - 1) as nat) {
            Some(i) => Some(i),
            None => if materials[n - 1].id_spec() == id {
                Some(n - 1)
            } else {
                None
            },
        }
    }
}

/// A material found among the first few is the one found among more, and
/// what is found carries the identifier.
pub proof fn lemma_material_index(materials: Seq<Material>, id: Seq<char>, n: nat, m: nat)
    requires
        n <= m <= materials.len(),
    ensures
        material_index(materials, id, n) is Some ==> material_index(materials, id, m)
            == material_index(materials, id, n),
        match material_index(materials, id, m) {
            Some(i) => 0 <= i < m && materials[i].id_spec() == id,
            None => true,
        },
    decreases m,
{
    if m > 0 {
        if n < m {
            lemma_material_index(materials, id, n, (m - 1) as nat);
        } else {
            lemma_material_index(materials, id, (n - 1) as nat, (m - 1) as nat);
        }
    }
}

impl Scene {
    /// Create a new scene with the given camera and bounds and nothing else.
    pub fn new(camera: Camera, bounds: Bounds) -> (s: Self)
        ensures
            s.camera == camera,
            s.bounds == bounds,
            s.elements@.len() == 0,
            s.materials@.len() == 0,
            s.light is None,
    {
        Scene { camera, elements: Vec::new(), materials: Vec::new(), light: None, bounds }
    }

    /// Set the directional light for the scene.
    pub fn with_light(self, light: Light) -> (s: Self)
        ensures
            s.camera == self.camera,
            s.bounds == self.bounds,
            s.elements == self.elements,
            s.materials == self.materials,
            s.light == Some(light),
    {
        Scene {
            camera: self.camera,
            elements: self.elements,
            materials: self.materials,
            light: Some(light),
            bounds: self.bounds,
        }
    }

    /// Add a material to the scene.
    pub fn add_material(self, material: Material) -> (s: Self)
        ensures
            s.camera == self.camera,
            s.bounds == self.bounds,
            s.elements == self.elements,
            s.materials@ == self.materials@.push(material),
            s.light == self.light,
    {
        let mut s = self;
        s.materials.push(material);
        s
    }

    /// Look up a material by identifier: the first one that carries it.
    pub fn get_material(&self, id: &str) -> (r: Option<&Material>)
        ensures
            match material_index(self.materials@, id@, self.materials@.len()) {
                Some(i) => 0 <= i < self.materials@.len() && r == Some(&self.materials@[i]),
                None => r is None,
            },
    {
        let wanted = id.to_owned();
        let mut i: usize = 0;
        while i < self.materials.len()
            invariant
                i <= self.materials@.len(),
                wanted@ == id@,
                material_index(self.materials@, id@, i as nat) is None,
            decreases self.materials@.len() - i,
        {
            let found = self.materials[i].id().to_owned();
            if found == wanted {
                proof {
                    lemma_material_index(
                        self.materials@,
                        id@,
                        (i + 1) as nat,
                        self.materials@.len(),
                    );
                }
                return Some(&self.materials[i]);
            }
            i = i + 1;
        }
        None
    }

    /// Add a point cloud to the scene.
    pub fn add_point_cloud(self, pc: PointCloud) -> (s: Self)
        ensures
            s.camera == self.camera,
            s.bounds == self.bounds,
            s.elements@ == self.elements@.push(SceneElement::PointCloud(pc)),
            s.materials == self.materials,
            s.light == self.light,
    {
        let mut s = self;
        s.elements.push(SceneElement::PointCloud(pc));
        s
    }

    /// Add a polyline to the scene.
    pub fn add_polyline(self, line: Polyline) -> (s: Self)
        ensures
            s.camera == self.camera,
            s.bounds == self.bounds,
            s.elements@ == self.elements@.push(SceneElement::Polyline(line)),
            s.materials == self.materials,
            s.light == self.light,
    {
        let mut s = self;
        s.elements.push(SceneElement::Polyline(line));
        s
    }

    /// Add a mesh to the scene.
    pub fn add_mesh(self, mesh: Mesh) -> (s: Self)
        ensures
            s.camera == self.camera,
            s.bounds == self.bounds,
            s.elements@ == self.elements@.push(SceneElement::Mesh(mesh)),
            s.materials == self.materials,
            s.light == self.light,
    {
        let mut s = self;
        s.elements.push(SceneElement::Mesh(mesh));
        s
    }

    /// Add coordinate axes to the scene.
    pub fn add_axes(self, axes: AxisBundle) -> (s: Self)
        ensures
            s.camera == self.camera,
            s.bounds == self.bounds,
            s.elements@ == self.elements@.push(SceneElement::Axes(axes)),
            s.materials == self.materials,
            s.light == self.light,
    {
        let mut s = self;
        s.elements.push(SceneElement::Axes(axes));
        s
    }
}

} // verus!
