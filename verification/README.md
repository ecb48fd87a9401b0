# find_winpe_profile_path

Finds a marker file or directory below the root of a volume in Windows PE,
according to a fixed order of media, and writes the full path of the first match
to standard output.

```text
FindWinPEProfilePath.exe [--verbose] <relative-path>
```

Volumes with a drive letter are searched group by group, and in the order of
their letters within a group: the partition that the firmware booted from, other
partitions of its disk, the Ventoy data partition that holds the booted image,
other USB disks, other removable media, optical discs, fixed disks, RAM disks
and virtual disks, network drives.

The exit code is 0 where the marker was found, 1 where it was not, and 2 where
the parameters are wrong or the system fails.

## Layout

`src/` is a library verified with Verus. It reads and writes nothing itself:

- `path` checks the path to look for and joins it to the root of a volume;
- `device`, `volume` and `plan` identify disks, classify volumes and put them in
  order;
- `ventoy` reads what Ventoy tells the system that it booted;
- `scan`, `ventoy_search` and `search` decide what to ask the system for, one
  request at a time, and what follows from each reply (`request`);
- `note` and `cli` say what is written, where, and with which exit code;
- `outcome` states and proves what a search finds, whatever the computer answers;
- `text`, `number` and `utf16` hold what the others need of characters, numbers
  and the encoding that Windows uses.

`app/` asks Windows, hands the replies to the library and writes what it is told.
`tests/` runs the library on concrete values and on whole computers made up for
the purpose.
