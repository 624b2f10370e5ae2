//! What the setup dialogue says.

use vstd::prelude::*;

verus! {

/// The title of the dialogue.
pub const TITLE: &'static str = "Habitat CLI Setup";

/// The first words of the dialogue.
pub const WELCOME: &'static str = "Welcome to hab setup. Let's get started.";

/// The heading of the section on the builder.
pub const BUILDER_HEADING: &'static str = "Habitat Builder Instance";

/// What a builder is.
pub const BUILDER_ABOUT: &'static str =
    "Habitat packages can be stored in either the public builder instance \
     https://bldr.habitat.sh or in an on-premises builder depot instance. If you do not set a \
     builder URL now, the `hab` CLI will default to using the public builder instance. This \
     can be overridden at any time after setup.";

/// What to enter for the builder.
pub const BUILDER_ENTER: &'static str =
    "Enter the url of your builder instance. The default is https://bldr.habitat.sh. The \
     configured endpoint can be overridden any time with a `HAB_BLDR_URL` environment \
     variable or a --url flag on the cli.";

/// How to choose a builder without a default.
pub const BUILDER_LATER: &'static str =
    "Alright, maybe another time. You can also set a `HAB_BLDR_URL` environment variable or \
     pass the `--url` flag to the cli.";

/// The heading of the section on the origin.
pub const ORIGIN_HEADING: &'static str = "Set up a default origin";

/// What an origin is.
pub const ORIGIN_ABOUT: &'static str =
    "Every package in Habitat belongs to an origin, which indicates the person or \
     organization responsible for maintaining that package. Each origin also has a key used \
     to cryptographically sign packages in that origin.";

/// What a default origin is good for.
pub const ORIGIN_WHY: &'static str =
    "Selecting a default origin tells package building operations such as 'hab pkg build' \
     what key should be used to sign the packages produced. If you do not set a default \
     origin now, you will have to tell package building commands each time what origin to use.";

/// Where to read more of origins.
pub const ORIGIN_MORE: &'static str =
    "For more information on origins and how they are used in building packages, please \
     consult the docs at https://www.habitat.sh/docs/create-packages-build/";

/// What to enter for the origin.
pub const ORIGIN_ENTER: &'static str =
    "Enter the name of your origin. If you plan to publish your packages publicly, we \
     recommend that you select one that is not already in use on the Habitat build service \
     found at https://bldr.habitat.sh/.";

/// How origin names are formed.
pub const ORIGIN_RULES: &'static str =
    "Origins must begin with a lowercase letter or number. Allowed characters include \
     lowercase letters, numbers, _, -. No more than 255 characters.";

/// How to choose an origin without a default.
pub const ORIGIN_LATER: &'static str =
    "Alright, maybe another time. You can also set a `HAB_ORIGIN` environment variable when \
     using the cli.";

/// The heading over the creation of a key.
pub const KEY_HEADING: &'static str = "Create origin key pair";

/// How to come by a key.
pub const KEY_HOW: &'static str =
    "You can either create a new signing key now, or, if you are building packages for an \
     origin that already exists, ask the owner to give you the signing key.";

/// Where to read more of keys.
pub const KEY_MORE: &'static str =
    "For more information on the use of origin keys, please consult the documentation at \
     https://www.habitat.sh/docs/concepts-keys/#origin-keys";

/// The heading of the section on the access token.
pub const TOKEN_HEADING: &'static str = "Habitat Personal Access Token";

/// What an access token is good for.
pub const TOKEN_WHY: &'static str =
    "While you can perform tasks like building and running Habitat packages without needing \
     to authenticate with Builder, some operations like uploading your packages to Builder, \
     or checking the status of your build jobs from the Habitat client will require you to \
     use an access token.";

/// How to come by an access token.
pub const TOKEN_HOW: &'static str =
    "The Habitat Personal Access Token can be generated via the Builder  Profile page \
     (https://bldr.habitat.sh/#/profile). Once you have generated your token, you can enter \
     it here.";

/// What to answer.
pub const TOKEN_SAVE: &'static str =
    "If you would like to save your token for use by the Habitat client, please enter your \
     access token. Otherwise, just enter No.";

/// Where to read more of the builder.
pub const TOKEN_MORE: &'static str =
    "For more information on using Builder, please read the documentation at \
     https://www.habitat.sh/docs/using-builder/";

/// What to enter for the access token.
pub const TOKEN_ENTER: &'static str = "Enter your Habitat Personal Access Token.";

/// How to give an access token without a default.
pub const TOKEN_LATER: &'static str =
    "Alright, maybe another time. You can also set a `HAB_AUTH_TOKEN` environment variable or \
     pass the `--auth` flag to the cli.";

/// The heading of the section on the control gateway secret.
pub const SECRET_HEADING: &'static str = "Supervisor Control Gateway Secret";

/// What the control gateway secret is.
pub const SECRET_ABOUT: &'static str =
    "The Supervisor control gateway secret is used to authenticate hab client commands to a \
     Supervisor. When a new Supervisor is created, a unique secret is generated automatically \
     and stored locally in a file: `/hab/sup/default/CTL_SECRET`. When issuing commands to a \
     local Supervisor, the control gateway secret is retrieved from this file. Typically, a \
     default Supervisor control gateway secret would only be needed if you wish to send \
     commands to a remote supervisor, in which case, a default control gateway secret would \
     need to match the one already in use by the remote supervisor.";

/// What to enter for the control gateway secret.
pub const SECRET_ENTER: &'static str = "Enter your Habitat Supervisor control gateway secret.";

/// How to give a control gateway secret without a default.
pub const SECRET_LATER: &'static str =
    "Alright, maybe another time. You can also set a `HAB_CTL_SECRET` environment variable \
     when issuing commands to a remote Supervisor.";

/// The heading of the section on binlinks.
pub const BINLINK_HEADING: &'static str = "Habitat Binlink Path";

/// What binlinks are.
pub const BINLINK_ABOUT: &'static str =
    "The `hab` command-line tool can create binlinks for package binaries in the 'PATH' when \
     using the 'pkg binlink' or 'pkg install --binlink' commands. By default, Habitat will \
     create these binlinks in the '/hab/bin' directory. This directory will always be \
     included in your 'PATH' when inside a Studio environment. However, you will want this \
     directory on your machine's persistent 'PATH' in order to access binlinks outside of a \
     Studio.";

/// Why the search path was not changed.
pub const BINLINK_NOT_ROOT: &'static str =
    "You must be in an elevated console running as an administrator in order to set the \
     machine's PATH. Please open a new console running as administrator and run setup again \
     to add the Habitat binlink directory to your path.";

/// The last heading.
pub const END_HEADING: &'static str = "CLI Setup Complete";

/// The last words of the dialogue.
pub const END: &'static str = "That's all for now. Thanks for using Habitat!";

} // verus!
