//! The release manifest that ships inside every release of the wrapped
//! application.
use vstd::prelude::*;

verus! {

/// How many instances of the wrapped application may run at once.
#[allow(non_camel_case_types)]
#[derive(Clone, Copy, Debug, PartialEq, Eq, Structural)]
pub enum InstanceMode {
    multi_instance,
    single_instance,
}

/// The part of a release manifest that the packaging tool generates.
#[derive(Clone, Debug)]
pub struct ShipperfileGenerated {
    /// The application icon as a base64 data URI.
    pub icon: String,
}

/// The release manifest.
#[derive(Clone, Debug)]
pub struct Shipperfile {
    pub app_id: String,
    /// Path of the binary to launch, relative to the release root.
    pub program_path_to_binary: String,
    pub program_arguments: Option<Vec<String>>,
    pub program_working_subdirectory: Option<String>,
    pub instance_mode: Option<InstanceMode>,
    pub _generated: ShipperfileGenerated,
}

/// A copy of an optional text.
pub fn clone_opt_string(o: &Option<String>) -> (r: Option<String>)
    ensures
        r == *o,
{
    match o {
        Some(s) => Some(s.clone()),
        None => None,
    }
}

/// A copy of a list of texts.
pub fn clone_strings(v: &Vec<String>) -> (r: Vec<String>)
    ensures
        r@ == v@,
{
    let mut r: Vec<String> = Vec::new();
    let mut i: usize = 0;
    while i < v.len()
        invariant
            0 <= i <= v.len(),
            r@ == v@.take(i as int),
        decreases v.len() - i,
    {
        r.push(v[i].clone());
        proof {
            assert(v@.take(i as int + 1) =~= v@.take(i as int).push(v@[i as int]));
        }
        i += 1;
    }
    proof {
        assert(v@.take(i as int) =~= v@);
    }
    r
}

impl Shipperfile {
    /// The instance mode in force: a manifest that names none allows many
    /// instances.
    pub open spec fn effective_mode_spec(&self) -> InstanceMode {
        match self.instance_mode {
            Some(m) => m,
            None => InstanceMode::multi_instance,
        }
    }

    /// The instance mode in force.
    pub fn effective_mode(&self) -> (m: InstanceMode)
        ensures
            m == self.effective_mode_spec(),
    {
        match self.instance_mode {
            Some(m) => m,
            None => InstanceMode::multi_instance,
        }
    }

    /// A copy of this manifest. The argument list is copied text by text.
    pub fn duplicate(&self) -> (r: Self)
        ensures
            r.app_id == self.app_id,
            r.program_path_to_binary == self.program_path_to_binary,
            r.program_working_subdirectory == self.program_working_subdirectory,
            r.instance_mode == self.instance_mode,
            r._generated.icon == self._generated.icon,
            r.program_arguments is Some == self.program_arguments is Some,
            r.program_arguments is Some ==> r.program_arguments->Some_0@
                == self.program_arguments->Some_0@,
    {
        let args = match &self.program_arguments {
            Some(a) => Some(clone_strings(a)),
            None => None,
        };
        Shipperfile {
            app_id: self.app_id.clone(),
            program_path_to_binary: self.program_path_to_binary.clone(),
            program_arguments: args,
            program_working_subdirectory: clone_opt_string(&self.program_working_subdirectory),
            instance_mode: self.instance_mode,
            _generated: ShipperfileGenerated { icon: self._generated.icon.clone() },
        }
    }
}

} // verus!
