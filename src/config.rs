use vstd::prelude::*;
use vstd::string::StringExecFns;

verus! {

/// Where the external program and its default recipe are.
#[derive(Debug, Clone)]
pub struct SmoothieConfig {
    pub executable_path: String,
    pub recipe_path: String,
}

#[derive(Debug, Clone, PartialEq, Eq, Structural)]
pub enum ConfigError {
    ExecutableNotFound,
}

impl ConfigError {
    pub open spec fn message_text(self) -> Seq<char> {
        match self {
            ConfigError::ExecutableNotFound => "smoothie-rs executable not found automatically."@,
        }
    }

    /// The error as a sentence for the user.
    pub fn message(&self) -> (r: String)
        ensures
            r@ == self.message_text(),
    {
        match self {
            ConfigError::ExecutableNotFound => String::from_str(
                "smoothie-rs executable not found automatically.",
            ),
        }
    }
}

/// The recipe tried first, relative to the working directory.
pub open spec fn relative_recipe() -> Seq<char> {
    "./Smoothie/recipe.ini"@
}

/// The recipe used when no other is found.
pub open spec fn fallback_recipe() -> Seq<char> {
    "recipe.ini"@
}

/// Picks the default recipe: `./Smoothie/recipe.ini` if it is a file, else the
/// `recipe.ini` of the installation folder above the executable's directory if
/// it is known and a file, else plain `recipe.ini`.
pub fn find_default_recipe(
    relative_recipe_is_file: bool,
    recipe_beside_executable: Option<String>,
    recipe_beside_executable_is_file: bool,
) -> (r: String)
    ensures
        relative_recipe_is_file ==> r@ == relative_recipe(),
        !relative_recipe_is_file ==> match recipe_beside_executable {
            Some(p) => if recipe_beside_executable_is_file {
                r@ == p@
            } else {
                r@ == fallback_recipe()
            },
            None => r@ == fallback_recipe(),
        },
{
    if relative_recipe_is_file {
        return String::from_str("./Smoothie/recipe.ini");
    }
    match recipe_beside_executable {
        Some(p) => {
            if recipe_beside_executable_is_file {
                p
            } else {
                String::from_str("recipe.ini")
            }
        },
        None => String::from_str("recipe.ini"),
    }
}

/// The configuration found without help: the executable, if one was found, with
/// the default recipe for it.
pub fn find_smoothie_config_auto(executable_path: Option<String>, default_recipe: String) -> (r:
    Result<SmoothieConfig, ConfigError>)
    ensures
        executable_path is None ==> r == Err::<SmoothieConfig, ConfigError>(
            ConfigError::ExecutableNotFound,
        ),
        executable_path is Some ==> r == Ok::<SmoothieConfig, ConfigError>(
            (SmoothieConfig {
                executable_path: executable_path.unwrap(),
                recipe_path: default_recipe,
            }),
        ),
{
    match executable_path {
        Some(e) => Ok(SmoothieConfig { executable_path: e, recipe_path: default_recipe }),
        None => Err(ConfigError::ExecutableNotFound),
    }
}

/// The configuration of an installation folder chosen by the user: its
/// executable must be a file; its own `recipe.ini` is used if it is a file, else
/// the default recipe.
pub fn find_smoothie_config_in_dir(
    executable_path: String,
    executable_is_file: bool,
    folder_recipe: String,
    folder_recipe_is_file: bool,
    default_recipe: String,
) -> (r: Result<SmoothieConfig, ConfigError>)
    ensures
        !executable_is_file ==> r == Err::<SmoothieConfig, ConfigError>(
            ConfigError::ExecutableNotFound,
        ),
        executable_is_file ==> r == Ok::<SmoothieConfig, ConfigError>(
            (SmoothieConfig {
                executable_path,
                recipe_path: if folder_recipe_is_file {
                    folder_recipe
                } else {
                    default_recipe
                },
            }),
        ),
{
    if !executable_is_file {
        return Err(ConfigError::ExecutableNotFound);
    }
    let recipe_path = if folder_recipe_is_file {
        folder_recipe
    } else {
        default_recipe
    };
    Ok(SmoothieConfig { executable_path, recipe_path })
}

} // verus!
