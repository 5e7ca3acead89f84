//! The texts of the queries the server runs; `§§` stands for the database name.
use vstd::prelude::*;

verus! {

/// Creates the database.
pub const CREATE_DATABASE: &'static str = "CREATE DATABASE IF NOT EXISTS §§;";

/// Creates the table of libraries (buckets).
pub const CREATE_LIBRARY_TABLE: &'static str = "CREATE TABLE IF NOT EXISTS §§.Library (id INT NOT NULL AUTO_INCREMENT,\n        name TEXT NOT NULL, PRIMARY KEY (id))\n        ENGINE=INNODB CHARACTER SET utf8 COLLATE utf8_unicode_ci;";

/// Creates the table of users.
pub const CREATE_USERS_TABLE: &'static str = "CREATE TABLE IF NOT EXISTS §§.Users\n        (id INT NOT NULL AUTO_INCREMENT, path TEXT NOT NULL, lastsync BIGINT,\n        email TEXT NOT NULL, pass TEXT NOT NULL, os_user TEXT NOT NULL,\n        os_group TEXT NOT NULL, group_visible TINYINT NOT NULL DEFAULT '0',\n        PRIMARY KEY (id)) ENGINE=INNODB CHARACTER SET utf8 COLLATE utf8_unicode_ci;";

/// Creates the table of media files.
pub const CREATE_MEDIA_TABLE: &'static str = "CREATE TABLE IF NOT EXISTS §§.Media\n        (id INT NOT NULL AUTO_INCREMENT, path VARCHAR(255) NOT NULL,\n        filename VARCHAR(255) NOT NULL, longitude DOUBLE, latitude DOUBLE,\n        created BIGINT, modified BIGINT NOT NULL, horiz_resolution INT NOT NULL,\n        vert_resolution INT NOT NULL, duration BIGINT NOT NULL,\n        library INT NOT NULL, user INT NOT NULL, doneCoding BOOLEAN NOT NULL,\n        last_request BIGINT, size BIGINT,\n        PRIMARY KEY (id), FOREIGN KEY (library) REFERENCES Library(id),\n        FOREIGN KEY (user) REFERENCES Users(id), UNIQUE (path, filename))\n        ENGINE=INNODB CHARACTER SET utf8 COLLATE utf8_unicode_ci;";

/// Creates the table of places found for media.
pub const CREATE_PLACES_TABLE: &'static str = "CREATE TABLE IF NOT EXISTS §§.Places (id INT NOT NULL AUTO_INCREMENT,\n        picture INT NOT NULL, place VARCHAR(255) NOT NULL, PRIMARY KEY (id),\n        UNIQUE (picture, place), FOREIGN KEY (picture) REFERENCES Media(id))\n        ENGINE=INNODB CHARACTER SET utf8 COLLATE utf8_unicode_ci;";

/// The id and password hash of the users with an e-mail address.
pub const SELECT_USER_CREDENTIALS: &'static str = "SELECT id, pass FROM §§.Users WHERE email = ?;";

/// The libraries that hold media of a user.
pub const SELECT_USER_LIBRARIES: &'static str = "SELECT id, name FROM §§.Library WHERE id IN\n        (SELECT DISTINCT library FROM §§.Media WHERE user = ?);";

/// The number of media of a user in a library.
pub const COUNT_LIBRARY_MEDIA: &'static str = "SELECT COUNT(id) AS `total` FROM (SELECT id FROM §§.Media WHERE library = ? AND user = ?) AS `other` ";

/// The operating-system user and group of a user, and whether the group sees the files.
pub const SELECT_OWNERSHIP: &'static str = "SELECT os_user, os_group, group_visible FROM §§.Users WHERE id = ?";

/// The ids of a user's media in a library.
pub const SELECT_LIBRARY_MEDIA_IDS: &'static str = "SELECT id FROM §§.Media WHERE user = ? AND library = ?";

/// A user's media in a library, newest first.
pub const SELECT_LIBRARY_MEDIA: &'static str = "SELECT id, filename, duration, size FROM §§.Media WHERE user = ? AND library = ? ORDER BY\n        (CASE WHEN created < modified THEN created ELSE modified END) DESC,\n        filename DESC";

/// The directory that holds a user's files.
pub const SELECT_USER_PATH: &'static str = "SELECT path FROM §§.Users WHERE id = ?;";

/// Adds a library unless it exists.
pub const INSERT_LIBRARY: &'static str = "INSERT IGNORE INTO §§.Library (name) VALUES (?);";

/// Adds a media file unless it exists.
pub const INSERT_MEDIA: &'static str = "INSERT IGNORE INTO §§.Media (path, filename, created, modified,\n        latitude, longitude, horiz_resolution, vert_resolution, library, duration, user, size) VALUES\n        (?, ?, ?, ?, ?, ?, ?, ?, ?, ?, ?, ?);";

/// The id of the media file with a path and file name.
pub const SELECT_MEDIA_ID_BY_FILE: &'static str = "SELECT id FROM §§.Media WHERE path = ? AND filename = ?;";

/// The id of the library with a name.
pub const SELECT_LIBRARY_ID: &'static str = "SELECT id FROM §§.Library WHERE name = ?;";

/// Records when a user last requested a media file.
pub const TOUCH_MEDIA: &'static str = "UPDATE §§.Media SET last_request = ? WHERE id = ? AND user = ?;";

/// The stored details of one media file of a user.
pub const SELECT_USER_MEDIA_INFO: &'static str = "SELECT id, path, filename, longitude, latitude, created, modified,\n        horiz_resolution, vert_resolution, duration, last_request FROM §§.Media\n        WHERE user = ? AND id = ?";

/// Forgets the places of a media file.
pub const DELETE_MEDIA_PLACES: &'static str = "DELETE FROM §§.Places\n        WHERE picture = ?";

/// Forgets a media file.
pub const DELETE_MEDIA: &'static str = "DELETE FROM §§.Media\n        WHERE id = ?";

/// The stored details of one media file.
pub const SELECT_MEDIA_INFO: &'static str = "SELECT id, path, filename, longitude, latitude, created, modified,\n        horiz_resolution, vert_resolution, duration, last_request FROM §§.Media\n        WHERE id = ?";

/// When a user last synchronised.
pub const SELECT_LAST_SYNC: &'static str = "SELECT lastsync FROM §§.Users WHERE id = ?";

/// Records when a user last synchronised.
pub const UPDATE_LAST_SYNC: &'static str = "UPDATE §§.Users SET lastsync = ? WHERE id = ?";

/// The media whose places have (or have not) been looked up.
pub const SELECT_UNCODED_MEDIA: &'static str = "SELECT id FROM §§.Media WHERE doneCoding = ?";

/// The videos not requested since a time.
pub const SELECT_STALE_MEDIA: &'static str = "SELECT id FROM §§.Media WHERE last_request < ? AND duration >= 0";

/// The coordinates of a media file.
pub const SELECT_MEDIA_LOCATION: &'static str = "SELECT latitude, longitude FROM §§.Media WHERE id = ?;";

/// Adds a place found for a media file.
pub const INSERT_PLACE: &'static str = "INSERT IGNORE INTO §§.Places (picture, place) VALUES (?, ?);";

/// Records whether the places of a media file have been looked up.
pub const MARK_MEDIA_CODED: &'static str = "UPDATE §§.Media SET doneCoding = ? WHERE id = ?;";

/// The ids of all media.
pub const SELECT_ALL_MEDIA: &'static str = "SELECT id FROM §§.Media";

} // verus!
