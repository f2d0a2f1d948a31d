//! The names of the built-in demo scenes a user may ask the generator
//! for.  Building the scene descriptions themselves is demo data, not
//! rendering logic, and lives with the front end.

use crate::text::str_eq;
use vstd::prelude::*;

verus! {

/// A built-in demo scene.
#[derive(Debug, Clone, Copy, PartialEq, Eq, Structural)]
pub enum Scene {
    Basic,
    Cover,
    CoverWithMotionBlur,
    CoverWithChecker,
    Perlin,
    Planets,
    SimpleLight,
    CornellBox,
    CornellSmoke,
    CornellMetal,
    NextWeekFinal,
}

impl Scene {
    /// The scene's name.
    pub fn name(&self) -> (r: &'static str)
        ensures
            r@ == spec_scene_name(*self),
    {
        match self {
            Scene::Basic => "Basic",
            Scene::Cover => "Cover",
            Scene::CoverWithMotionBlur => "CoverWithMotionBlur",
            Scene::CoverWithChecker => "CoverWithChecker",
            Scene::Perlin => "Perlin",
            Scene::Planets => "Planets",
            Scene::SimpleLight => "SimpleLight",
            Scene::CornellBox => "CornellBox",
            Scene::CornellSmoke => "CornellSmoke",
            Scene::CornellMetal => "CornellMetal",
            Scene::NextWeekFinal => "NextWeekFinal",
        }
    }

    /// The scene whose name matches `name` exactly, if any.
    pub fn from_name(name: &str) -> (r: Option<Scene>)
        ensures
            match r {
                Some(scene) => name@ == spec_scene_name(scene),
                None => forall|scene: Scene| name@ != spec_scene_name(scene),
            },
    {
        let all = Scene::variants_list();
        let n = all.len();
        let mut i: usize = 0;
        while i < n
            invariant
                n == all@.len(),
                i <= n,
                all@ == spec_all_scenes(),
                forall|j: int| 0 <= j < i ==> name@ != spec_scene_name(#[trigger] all@[j]),
            decreases n - i,
        {
            let candidate = all[i];
            if str_eq(name, candidate.name()) {
                return Some(candidate);
            }
            i = i + 1;
        }
        proof {
            assert forall|scene: Scene| name@ != spec_scene_name(scene) by {
                match scene {
                    Scene::Basic => assert(name@ != spec_scene_name(all@[0])),
                    Scene::Cover => assert(name@ != spec_scene_name(all@[1])),
                    Scene::CoverWithMotionBlur => assert(name@ != spec_scene_name(all@[2])),
                    Scene::CoverWithChecker => assert(name@ != spec_scene_name(all@[3])),
                    Scene::Perlin => assert(name@ != spec_scene_name(all@[4])),
                    Scene::Planets => assert(name@ != spec_scene_name(all@[5])),
                    Scene::SimpleLight => assert(name@ != spec_scene_name(all@[6])),
                    Scene::CornellBox => assert(name@ != spec_scene_name(all@[7])),
                    Scene::CornellSmoke => assert(name@ != spec_scene_name(all@[8])),
                    Scene::CornellMetal => assert(name@ != spec_scene_name(all@[9])),
                    Scene::NextWeekFinal => assert(name@ != spec_scene_name(all@[10])),
                }
            }
        }
        None
    }

    /// Every scene, in a fixed order.
    pub fn variants_list() -> (r: Vec<Scene>)
        ensures
            r@ == spec_all_scenes(),
    {
        let mut r: Vec<Scene> = Vec::new();
        r.push(Scene::Basic);
        r.push(Scene::Cover);
        r.push(Scene::CoverWithMotionBlur);
        r.push(Scene::CoverWithChecker);
        r.push(Scene::Perlin);
        r.push(Scene::Planets);
        r.push(Scene::SimpleLight);
        r.push(Scene::CornellBox);
        r.push(Scene::CornellSmoke);
        r.push(Scene::CornellMetal);
        r.push(Scene::NextWeekFinal);
        proof {
            assert(r@ =~= spec_all_scenes());
        }
        r
    }
}

/// Every scene, in the order the generator lists them.
pub open spec fn spec_all_scenes() -> Seq<Scene> {
    seq![
        Scene::Basic,
        Scene::Cover,
        Scene::CoverWithMotionBlur,
        Scene::CoverWithChecker,
        Scene::Perlin,
        Scene::Planets,
        Scene::SimpleLight,
        Scene::CornellBox,
        Scene::CornellSmoke,
        Scene::CornellMetal,
        Scene::NextWeekFinal,
    ]
}

/// The name of a scene.
pub open spec fn spec_scene_name(scene: Scene) -> Seq<char> {
    match scene {
        Scene::Basic => "Basic"@,
        Scene::Cover => "Cover"@,
        Scene::CoverWithMotionBlur => "CoverWithMotionBlur"@,
        Scene::CoverWithChecker => "CoverWithChecker"@,
        Scene::Perlin => "Perlin"@,
        Scene::Planets => "Planets"@,
        Scene::SimpleLight => "SimpleLight"@,
        Scene::CornellBox => "CornellBox"@,
        Scene::CornellSmoke => "CornellSmoke"@,
        Scene::CornellMetal => "CornellMetal"@,
        Scene::NextWeekFinal => "NextWeekFinal"@,
    }
}

} // verus!
